use datasynth_group::aggregate::equity_method::{suppressed_loss_positions, EquityMethodInvestment};
use datasynth_group::dec::dec_to_str;
use datasynth_group::aggregate::je_network::summarise_edge_counts;
use datasynth_group::aggregate::tb_loader::latest_period_index;
use datasynth_group::aggregate::translation::restatement::{GeneralPriceIndex, IndexedRestatement};
use datasynth_group::date::{is_chrono_date, Date};
use datasynth_group::dec::{magnitudes_fit, Dec};

fn d(m: i128, s: u32) -> Dec {
    Dec::new(m, s).unwrap()
}

fn ymd(year: i32, month: u32, day: u32) -> Date {
    Date { year, month, day }
}

#[test]
fn edge_summary_adds_entity_and_elimination_edges() {
    let s = summarise_edge_counts(vec![("A".to_string(), 3), ("B".to_string(), 4)], 2).unwrap();
    assert_eq!(s.consolidated_edge_count, 9);
    assert_eq!(s.elim_edge_count, 2);
    assert_eq!(s.per_entity_edge_count.len(), 2);
    assert!(s.consolidated_csv_path.is_none());
    assert!(summarise_edge_counts(vec![("A".to_string(), usize::MAX)], 1).is_none());
}

#[test]
fn latest_period_is_the_last_of_the_greatest_key() {
    assert_eq!(latest_period_index(&vec![(2023, 12), (2024, 3), (2024, 3), (2024, 1)]), Some(2));
    assert_eq!(latest_period_index(&vec![(2024, 1)]), Some(0));
    assert_eq!(latest_period_index(&vec![]), None);
}

#[test]
fn magnitudes_fit_below_two_to_the_ninety_six() {
    let max = (1i128 << 96) - 1;
    assert!(magnitudes_fit(&vec![d(max, 0)]));
    assert!(!magnitudes_fit(&vec![d(max, 0), d(1, 0)]));
    // 1.5 and 0.25 at scale 2 sum to 175 hundredths.
    assert!(magnitudes_fit(&vec![d(15, 1), d(-25, 2)]));
    assert!(!magnitudes_fit(&vec![d(max, 0), d(-1, 2)]));
}

#[test]
fn chrono_dates_are_real_days_in_range() {
    assert!(is_chrono_date(&ymd(2024, 2, 29)));
    assert!(!is_chrono_date(&ymd(2023, 2, 29)));
    assert!(!is_chrono_date(&ymd(2024, 13, 1)));
    assert!(!is_chrono_date(&ymd(300000, 1, 1)));
}

#[test]
fn cpi_average_is_the_mean_of_the_period_levels() {
    let series = GeneralPriceIndex {
        currency: "ARS".to_string(),
        source: "test".to_string(),
        observations: vec![(ymd(2023, 12, 31), d(100, 0)), (ymd(2024, 6, 30), d(110, 0)), (ymd(2024, 12, 31), d(120, 0))],
    };
    let ir = IndexedRestatement::from_cpi_series(&series, ymd(2024, 1, 1), ymd(2024, 12, 31)).unwrap();
    assert_eq!(ir.opening_index, d(100, 0));
    assert_eq!(ir.closing_index, d(120, 0));
    assert_eq!(ir.average_index, d(115, 0));
    // No observation inside the period: the midpoint of the two levels.
    let ir = IndexedRestatement::from_cpi_series(&series, ymd(2024, 7, 1), ymd(2024, 7, 31)).unwrap();
    assert_eq!(ir.average_index, d(110, 0));
    assert!(IndexedRestatement::from_cpi_series(&series, ymd(2020, 1, 1), ymd(2024, 12, 31)).is_none());
}

#[test]
fn decimal_text_places_the_point_by_scale() {
    assert_eq!(dec_to_str(Dec::new(12345, 2).unwrap()), "123.45");
    assert_eq!(dec_to_str(Dec::new(-5, 3).unwrap()), "-0.005");
    assert_eq!(dec_to_str(Dec::new(0, 2).unwrap()), "0.00");
    assert_eq!(dec_to_str(Dec::new(0, 0).unwrap()), "0");
    assert_eq!(dec_to_str(Dec::new(100, 0).unwrap()), "100");
    assert_eq!(dec_to_str(Dec::new(-70, 1).unwrap()), "-7.0");
}

fn investment(code: &str, suppressed: i128) -> EquityMethodInvestment {
    let z = Dec::zero();
    EquityMethodInvestment {
        investee_code: code.to_string(),
        investor_entity_code: "P".to_string(),
        ownership_percent: Dec::new(3, 1).unwrap(),
        opening_carrying_value: z,
        opening_suppressed_loss: z,
        share_of_profit: z,
        share_of_profit_recognised: z,
        dividends_received: z,
        impairment: z,
        suppressed_loss_this_period: z,
        closing_suppressed_loss: Dec::new(suppressed, 2).unwrap(),
        closing_carrying_value: z,
        period_end: datasynth_group::date::Date { year: 2024, month: 12, day: 31 },
        currency: "CHF".to_string(),
    }
}

#[test]
fn memorandum_lists_only_investments_with_a_suppressed_loss() {
    let invs = vec![investment("A", 0), investment("B", 1250), investment("C", -5), investment("D", 1)];
    assert_eq!(suppressed_loss_positions(&invs), vec![1, 3]);
    assert!(suppressed_loss_positions(&[]).is_empty());
}
