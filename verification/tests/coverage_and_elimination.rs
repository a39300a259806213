use datasynth_group::aggregate::coverage_report::build_coverage_report;
use datasynth_group::aggregate::elimination::{
    elimination_type_order, format_fiscal_period, short_pair_id, EliminationType,
};
use datasynth_group::aggregate::ic_matcher::{IcMatchResult, IcMatchedPair, UnmatchedReason, UnmatchedSide};
use datasynth_group::aggregate::ic_plan::IcRole;
use datasynth_group::aggregate::journal::{JournalEntry, JournalEntryHeader};
use datasynth_group::date::Date;

fn empty_match_result() -> IcMatchResult {
    IcMatchResult { matched: Vec::new(), unmatched: Vec::new(), total_planned: 0 }
}

fn dummy_je() -> JournalEntry {
    JournalEntry {
        header: JournalEntryHeader {
            document_id: "JE-1".to_string(),
            company_code: "ENT".to_string(),
            posting_date: Date { year: 2024, month: 6, day: 15 },
            currency: "EUR".to_string(),
            is_elimination: false,
            ic_pair_id: None,
        },
        lines: Vec::new(),
    }
}

fn hex_id(byte: u8) -> String {
    let mut s = String::new();
    for _ in 0..32 {
        s.push_str(&format!("{byte:02x}"));
    }
    s
}

fn reason_count(r: &[(UnmatchedReason, usize)], reason: UnmatchedReason) -> Option<usize> {
    r.iter().find(|(k, _)| *k == reason).map(|(_, n)| *n)
}

/// The coverage the report implies: matched over planned, zero when
/// nothing was planned.
fn coverage(matched: usize, planned: usize) -> f64 {
    if planned == 0 {
        0.0
    } else {
        matched as f64 / planned as f64
    }
}

#[test]
fn build_from_empty_matches_zero_coverage() {
    let r = build_coverage_report(&empty_match_result());
    assert_eq!(r.total_pairs_planned, 0);
    assert_eq!(r.matched, 0);
    assert_eq!(coverage(r.matched, r.total_pairs_planned), 0.0);
    assert!(r.unmatched_sample.is_empty());
    assert_eq!(r.unmatched_by_reason.len(), 3);
    assert_eq!(reason_count(&r.unmatched_by_reason, UnmatchedReason::MissingBuyerSide), Some(0));
    assert_eq!(reason_count(&r.unmatched_by_reason, UnmatchedReason::MissingSellerSide), Some(0));
    assert_eq!(reason_count(&r.unmatched_by_reason, UnmatchedReason::AmountDriftAboveTolerance), Some(0));
}

#[test]
fn histogram_keys_always_present_even_when_zero() {
    let mr = IcMatchResult {
        matched: Vec::new(),
        unmatched: vec![UnmatchedSide {
            pair_id: hex_id(1),
            present_role: IcRole::Seller,
            present_entity: "ENT".to_string(),
            present_je: dummy_je(),
            reason: UnmatchedReason::MissingBuyerSide,
        }],
        total_planned: 1,
    };
    let r = build_coverage_report(&mr);
    assert_eq!(reason_count(&r.unmatched_by_reason, UnmatchedReason::MissingBuyerSide), Some(1));
    assert_eq!(
        reason_count(&r.unmatched_by_reason, UnmatchedReason::MissingSellerSide),
        Some(0),
        "MissingSellerSide must be present at 0 for schema stability"
    );
    assert_eq!(
        reason_count(&r.unmatched_by_reason, UnmatchedReason::AmountDriftAboveTolerance),
        Some(0),
        "AmountDriftAboveTolerance must be present at 0 for schema stability"
    );
}

#[test]
fn build_passes_through_matched_count_and_coverage() {
    let pair = IcMatchedPair {
        pair_id: hex_id(2),
        seller_entity: "S".to_string(),
        buyer_entity: "B".to_string(),
        seller_je: dummy_je(),
        buyer_je: dummy_je(),
    };
    let mr = IcMatchResult { matched: vec![pair], unmatched: Vec::new(), total_planned: 2 };
    let r = build_coverage_report(&mr);
    assert_eq!(r.total_pairs_planned, 2);
    assert_eq!(r.matched, 1);
    assert_eq!(coverage(r.matched, r.total_pairs_planned), 0.5);
}

#[test]
fn fiscal_period_zero_pads_month() {
    assert_eq!(format_fiscal_period(Date { year: 2024, month: 3, day: 15 }), "202403");
    assert_eq!(format_fiscal_period(Date { year: 2024, month: 12, day: 1 }), "202412");
}

#[test]
fn elimination_type_order_is_a_permutation() {
    let all = [
        EliminationType::ICBalances,
        EliminationType::ICRevenueExpense,
        EliminationType::ICInterest,
        EliminationType::ICDividends,
        EliminationType::ICLoans,
        EliminationType::ICProfitInInventory,
        EliminationType::ICProfitInFixedAssets,
        EliminationType::InvestmentEquity,
        EliminationType::MinorityInterest,
        EliminationType::Goodwill,
        EliminationType::CurrencyTranslation,
    ];
    let mut keys: Vec<u8> = all.iter().map(|t| elimination_type_order(*t)).collect();
    keys.sort();
    keys.dedup();
    assert_eq!(keys.len(), all.len(), "ordinals must be unique");
}

#[test]
fn short_pair_id_is_eight_hex_chars() {
    let id = hex_id(0xab);
    let s = short_pair_id(&id);
    assert_eq!(s.len(), 8);
    assert_eq!(s, "abababab");
}
