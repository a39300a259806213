use datasynth_group::aggregate::driver::AggregateOptions;
use datasynth_group::aggregate::translation::classify::TranslationAccountType;
use datasynth_group::aggregate::translation::translate::{DrCr, RateBasis, TranslatedLine, TranslatedTb};
use datasynth_group::aggregate::translation::worksheet::build_entity;
use datasynth_group::date::Date;
use datasynth_group::dec::Dec;

fn d(m: i128, s: u32) -> Dec {
    Dec::new(m, s).unwrap()
}

fn sample_translated_tb() -> TranslatedTb {
    TranslatedTb {
        entity_code: "ACME_USA".to_string(),
        functional_currency: "USD".to_string(),
        presentation_currency: "CHF".to_string(),
        as_of_date: Date { year: 2024, month: 3, day: 31 },
        lines: vec![
            TranslatedLine {
                account_code: "1000".to_string(),
                local_amount: d(10000, 0),
                local_dr_cr: DrCr::Debit,
                fx_rate: d(110963, 5),
                rate_basis: RateBasis::Closing,
                translated_amount: d(1109630, 2),
                account_type: TranslationAccountType::BsMonetary,
            },
            TranslatedLine {
                account_code: "4000".to_string(),
                local_amount: d(7000, 0),
                local_dr_cr: DrCr::Credit,
                fx_rate: d(112395, 5),
                rate_basis: RateBasis::Average,
                translated_amount: d(786765, 2),
                account_type: TranslationAccountType::PlRevenue,
            },
        ],
        total_translated_debits: d(1109630, 2),
        total_translated_credits: d(786765, 2),
        cta: d(322865, 2),
    }
}

#[test]
fn build_entity_derives_ccy_pair_per_line() {
    let we = build_entity(&sample_translated_tb());
    assert_eq!(we.entity_code, "ACME_USA");
    assert_eq!(we.lines.len(), 2);
    for l in &we.lines {
        assert_eq!(l.ccy_pair, "USD/CHF");
    }
}

#[test]
fn aggregate_options_default_is_fail_fast_no_prior() {
    let opts = AggregateOptions::default();
    assert!(!opts.tolerate_missing_shards, "default fails fast");
    assert!(opts.prior_period_aggregate.is_none(), "no prior period");
}
