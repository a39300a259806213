use datasynth_group::aggregate::fs::cash_flow::{is_cash, sum_lines, CfLine};
use datasynth_group::aggregate::fs::consolidation_schedule::account_category_label;
use datasynth_group::aggregate::fs::equity_changes::rollforward;
use datasynth_group::aggregate::fs::income_statement::{classify_is_section, IsSection};
use datasynth_group::dec::Dec;

fn d(m: i128, s: u32) -> Dec {
    Dec::new(m, s).unwrap()
}

#[test]
fn is_cash_classifier() {
    assert!(is_cash("1000"));
    assert!(is_cash("1099"));
    assert!(!is_cash("1100"));
    assert!(!is_cash("999"));
    assert!(!is_cash("abc"));
    assert!(!is_cash(""));
}

#[test]
fn sum_lines_zero_when_empty() {
    assert_eq!(sum_lines(&[]).unwrap(), Dec::zero());
}

#[test]
fn sum_lines_signs_preserved() {
    let lines = vec![
        CfLine { label: "a".to_string(), amount: d(100, 0) },
        CfLine { label: "b".to_string(), amount: d(-30, 0) },
    ];
    assert_eq!(sum_lines(&lines).unwrap(), d(70, 0));
}

#[test]
fn category_label_ranges() {
    assert_eq!(account_category_label("1000"), "Asset");
    assert_eq!(account_category_label("2000"), "Liability");
    assert_eq!(account_category_label("3500"), "Equity");
    assert_eq!(account_category_label("4000"), "Revenue");
    assert_eq!(account_category_label("5000"), "Expense");
    assert_eq!(account_category_label("7100"), "Other Income/Expense");
    assert_eq!(account_category_label("8000"), "Tax");
    assert_eq!(account_category_label("9000"), "Suspense");
    assert_eq!(account_category_label("abc"), "Other");
}

#[test]
fn rollforward_identity() {
    let r = rollforward(d(100, 0), d(50, 0), d(10, 0), d(5, 0), d(2, 0)).unwrap();
    assert_eq!(r.closing, d(157, 0));
}

#[test]
fn classifier_assigns_canonical_ranges() {
    assert_eq!(classify_is_section("4000"), IsSection::Revenue);
    assert_eq!(classify_is_section("4499"), IsSection::Revenue);
    assert_eq!(classify_is_section("4500"), IsSection::Other);
    assert_eq!(classify_is_section("4900"), IsSection::Other);
    assert_eq!(classify_is_section("5000"), IsSection::Cogs);
    assert_eq!(classify_is_section("5099"), IsSection::Cogs);
    assert_eq!(classify_is_section("5100"), IsSection::Opex);
    assert_eq!(classify_is_section("6999"), IsSection::Opex);
    assert_eq!(classify_is_section("7100"), IsSection::Other);
    assert_eq!(classify_is_section("8000"), IsSection::Tax);
    assert_eq!(classify_is_section("1000"), IsSection::Excluded);
    assert_eq!(classify_is_section("3000"), IsSection::Excluded);
    assert_eq!(classify_is_section(""), IsSection::Excluded);
}
