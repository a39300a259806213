use datasynth_group::aggregate::translation::classify::TranslationAccountType;
use datasynth_group::aggregate::translation::restatement::{
    select_restatement_path, GeneralPriceIndex, IndexedRestatement, RestatementPath,
};
use datasynth_group::date::Date;
use datasynth_group::dec::Dec;
use datasynth_group::manifest::builder::HyperinflationStatus;
use rust_decimal::Decimal;

fn d(m: i128, s: u32) -> Dec {
    Dec::new(m, s).unwrap()
}

fn from_decimal(x: Decimal) -> Dec {
    Dec::new(x.mantissa(), x.scale()).unwrap()
}

fn ymd(year: i32, month: u32, day: u32) -> Date {
    Date { year, month, day }
}

fn ratio_200_150() -> Dec {
    from_decimal(Decimal::from(200) / Decimal::from(150))
}

#[test]
fn new_rejects_non_positive_indices() {
    assert!(IndexedRestatement::new(d(0, 0), d(110, 0), d(105, 0)).is_err());
    assert!(IndexedRestatement::new(d(100, 0), d(-1, 0), d(105, 0)).is_err());
    assert!(IndexedRestatement::new(d(100, 0), d(110, 0), d(0, 0)).is_err());
}

#[test]
fn factors_compute_from_indices() {
    let ir = IndexedRestatement::new(d(100, 0), d(200, 0), d(150, 0)).unwrap();
    assert_eq!(ir.non_monetary_factor().unwrap(), d(2, 0));
    assert_eq!(ir.pl_factor().unwrap(), ratio_200_150());
}

#[test]
fn factor_for_dispatches_by_account_type() {
    let ir = IndexedRestatement::new(d(100, 0), d(200, 0), d(150, 0)).unwrap();
    assert_eq!(ir.factor_for(TranslationAccountType::BsMonetary).unwrap(), d(1, 0));
    assert_eq!(ir.factor_for(TranslationAccountType::BsNonMonetary).unwrap(), d(2, 0));
    assert_eq!(ir.factor_for(TranslationAccountType::Equity).unwrap(), d(2, 0));
    assert_eq!(ir.factor_for(TranslationAccountType::PlRevenue).unwrap(), ratio_200_150());
    assert_eq!(ir.factor_for(TranslationAccountType::PlExpense).unwrap(), ratio_200_150());
    assert_eq!(ir.factor_for(TranslationAccountType::PlOci).unwrap(), ratio_200_150());
}

#[test]
fn unit_factors_when_all_indices_equal() {
    let ir = IndexedRestatement::new(d(100, 0), d(100, 0), d(100, 0)).unwrap();
    for ty in [
        TranslationAccountType::BsMonetary,
        TranslationAccountType::BsNonMonetary,
        TranslationAccountType::Equity,
        TranslationAccountType::PlRevenue,
        TranslationAccountType::PlExpense,
        TranslationAccountType::PlOci,
    ] {
        assert_eq!(ir.factor_for(ty).unwrap(), d(1, 0), "{ty:?}");
    }
}

fn ars_index_q1() -> GeneralPriceIndex {
    let mut idx = GeneralPriceIndex::new("ARS", "INDEC IPC General (test)");
    idx.observe(ymd(2024, 1, 1), d(100, 0));
    idx.observe(ymd(2024, 2, 1), d(120, 0));
    idx.observe(ymd(2024, 3, 1), d(150, 0));
    idx.observe(ymd(2024, 3, 31), d(180, 0));
    idx
}

#[test]
fn from_cpi_series_uses_endpoints_and_in_period_average() {
    let idx = ars_index_q1();
    let ir = IndexedRestatement::from_cpi_series(&idx, ymd(2024, 1, 1), ymd(2024, 3, 31)).unwrap();
    assert_eq!(ir.opening_index, d(100, 0));
    assert_eq!(ir.closing_index, d(180, 0));
    assert_eq!(ir.average_index, d(1375, 1));
}

#[test]
fn from_cpi_series_falls_back_to_midpoint_when_no_in_period_obs() {
    let mut idx = GeneralPriceIndex::new("TRY", "test");
    idx.observe(ymd(2023, 12, 1), d(100, 0));
    idx.observe(ymd(2024, 6, 1), d(200, 0));
    let ir = IndexedRestatement::from_cpi_series(&idx, ymd(2024, 1, 1), ymd(2024, 3, 31)).unwrap();
    assert_eq!(ir.opening_index, d(100, 0));
    assert_eq!(ir.closing_index, d(100, 0));
    assert_eq!(ir.average_index, d(100, 0));
}

#[test]
fn from_cpi_series_returns_none_when_no_obs_at_or_before_start() {
    let mut idx = GeneralPriceIndex::new("TRY", "test");
    idx.observe(ymd(2024, 6, 1), d(200, 0));
    assert!(IndexedRestatement::from_cpi_series(&idx, ymd(2024, 1, 1), ymd(2024, 3, 31)).is_none());
}

#[test]
fn select_restatement_path_non_hyperinflationary_is_standard() {
    let path = select_restatement_path(HyperinflationStatus::NotHyperinflationary, "USD", None, ymd(2024, 1, 1), ymd(2024, 3, 31));
    assert!(matches!(path, RestatementPath::Standard));
}

#[test]
fn select_restatement_path_hyperinflationary_no_map_is_closing_rate() {
    let path = select_restatement_path(HyperinflationStatus::Hyperinflationary, "ARS", None, ymd(2024, 1, 1), ymd(2024, 3, 31));
    assert!(matches!(path, RestatementPath::ClosingRate));
}

#[test]
fn select_restatement_path_hyperinflationary_no_match_is_closing_rate() {
    let map = vec![("TRY".to_string(), ars_index_q1())];
    let path =
        select_restatement_path(HyperinflationStatus::Hyperinflationary, "ARS", Some(&map), ymd(2024, 1, 1), ymd(2024, 3, 31));
    assert!(matches!(path, RestatementPath::ClosingRate));
}

#[test]
fn select_restatement_path_hyperinflationary_match_is_indexed() {
    let map = vec![("ARS".to_string(), ars_index_q1())];
    let path =
        select_restatement_path(HyperinflationStatus::Hyperinflationary, "ARS", Some(&map), ymd(2024, 1, 1), ymd(2024, 3, 31));
    match path {
        RestatementPath::Indexed(ir) => {
            assert_eq!(ir.opening_index, d(100, 0));
            assert_eq!(ir.closing_index, d(180, 0));
        }
        other => panic!("expected Indexed; got {other:?}"),
    }
}

#[test]
fn select_restatement_path_hyperinflationary_match_but_lookup_miss_is_closing_rate() {
    let mut idx = GeneralPriceIndex::new("ARS", "test");
    idx.observe(ymd(2024, 6, 1), d(200, 0));
    let map = vec![("ARS".to_string(), idx)];
    let path =
        select_restatement_path(HyperinflationStatus::Hyperinflationary, "ARS", Some(&map), ymd(2024, 1, 1), ymd(2024, 3, 31));
    assert!(matches!(path, RestatementPath::ClosingRate));
}
