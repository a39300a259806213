use datasynth_group::aggregate::nci::{
    compute_nci_rollforward, NciInputs, OwnershipChangeEvent, OwnershipChangeType,
};
use datasynth_group::config::ConsolidationMethod;
use datasynth_group::date::Date;
use datasynth_group::dec::Dec;
use datasynth_group::errors::GroupError;
use datasynth_group::manifest::builder::{HyperinflationStatus, ManifestEntity};
use rust_decimal::Decimal;

fn d(m: i128, s: u32) -> Dec {
    Dec::new(m, s).unwrap()
}

fn from_decimal(x: Decimal) -> Dec {
    Dec::new(x.mantissa(), x.scale()).unwrap()
}

fn make_entity(code: &str, method: ConsolidationMethod, ownership: Option<Dec>) -> ManifestEntity {
    ManifestEntity {
        code: code.to_string(),
        name: None,
        country: "DE".to_string(),
        functional_currency: "EUR".to_string(),
        scoping_profile: "significant".to_string(),
        consolidation_method: method,
        ownership_percent: ownership,
        parent_code: Some("PARENT".to_string()),
        accounting_framework: None,
        industry: None,
        hyperinflation_status: HyperinflationStatus::NotHyperinflationary,
        entity_seed: "00".to_string(),
        shard_id: "S_DEFAULT_0001".to_string(),
    }
}

fn ymd(year: i32, month: u32, day: u32) -> Date {
    Date { year, month, day }
}

fn period_end() -> Date {
    ymd(2024, 3, 31)
}

fn inputs<'a>(
    entity: &'a ManifestEntity,
    ni: Dec,
    oci: Dec,
    div: Dec,
    opening: Dec,
    fv: Option<Dec>,
    changes: &'a [OwnershipChangeEvent],
    start: Date,
    end: Date,
) -> NciInputs<'a> {
    NciInputs {
        entity,
        period_net_income: ni,
        period_oci: oci,
        total_dividends_paid: div,
        opening_nci: opening,
        acquisition_date_nci_fair_value: fv,
        ownership_changes: changes,
        period_start: start,
        period_end: end,
        currency: "CHF".to_string(),
    }
}

fn equity_event(ty: OwnershipChangeType, before: Dec, after: Dec, consideration: Dec) -> OwnershipChangeEvent {
    OwnershipChangeEvent {
        event_type: ty,
        effective_date: ymd(2024, 2, 15),
        ownership_percent_before: before,
        ownership_percent_after: after,
        previously_held_interest_carrying: None,
        previously_held_interest_fair_value: None,
        acquisition_date_nci_fair_value: None,
        consideration_paid_or_received: consideration,
    }
}

#[test]
fn happy_path_eighty_percent_owned() {
    let entity = make_entity("SUB", ConsolidationMethod::Full, Some(d(80, 2)));
    let i = inputs(&entity, d(1000, 0), d(200, 0), d(500, 0), d(800, 0), None, &[], period_end(), period_end());
    let rf = compute_nci_rollforward(&i).expect("must succeed");
    assert_eq!(rf.entity_code, "SUB");
    assert_eq!(rf.parent_entity_code, "PARENT");
    assert_eq!(rf.ownership_percent, d(80, 2));
    assert_eq!(rf.nci_percent, d(20, 2));
    assert_eq!(rf.nci_share_of_profit, d(20000, 2));
    assert_eq!(rf.nci_share_of_oci, d(4000, 2));
    assert_eq!(rf.nci_dividends, d(10000, 2));
    assert_eq!(rf.closing_nci, d(94000, 2));
}

#[test]
fn full_goodwill_acquisition_date_fair_value_seeds_period_one_opening() {
    let entity = make_entity("SUB", ConsolidationMethod::Full, Some(d(75, 2)));
    let i = inputs(&entity, d(1000, 0), d(200, 0), d(400, 0), Dec::zero(), Some(d(850, 0)), &[], period_end(), period_end());
    let rf = compute_nci_rollforward(&i).expect("must succeed");
    assert_eq!(rf.opening_nci, d(85000, 2), "opening must be seeded from fair value, not zero");
    assert_eq!(rf.nci_share_of_profit, d(25000, 2));
    assert_eq!(rf.nci_share_of_oci, d(5000, 2));
    assert_eq!(rf.nci_dividends, d(10000, 2));
    assert_eq!(rf.closing_nci, d(105000, 2));
}

#[test]
fn full_goodwill_fair_value_ignored_when_opening_nci_nonzero() {
    let entity = make_entity("SUB", ConsolidationMethod::Full, Some(d(80, 2)));
    let i = inputs(&entity, d(500, 0), Dec::zero(), Dec::zero(), d(940, 0), Some(d(1000, 0)), &[], period_end(), period_end());
    let rf = compute_nci_rollforward(&i).expect("must succeed");
    assert_eq!(rf.opening_nci, d(94000, 2), "fair value must not override a non-zero opening_nci");
    assert_eq!(rf.closing_nci, d(104000, 2));
}

#[test]
fn proportionate_basis_unchanged_when_no_fair_value() {
    let entity = make_entity("SUB", ConsolidationMethod::Full, Some(d(80, 2)));
    let i = inputs(&entity, d(1000, 0), d(200, 0), d(500, 0), d(800, 0), None, &[], period_end(), period_end());
    let rf = compute_nci_rollforward(&i).expect("must succeed");
    assert_eq!(rf.opening_nci, d(80000, 2));
    assert_eq!(rf.closing_nci, d(94000, 2));
}

#[test]
fn rejects_parent_method() {
    let entity = make_entity("PARENT_CO", ConsolidationMethod::Parent, None);
    let i = inputs(&entity, Dec::zero(), Dec::zero(), Dec::zero(), Dec::zero(), None, &[], period_end(), period_end());
    let err = compute_nci_rollforward(&i).expect_err("must reject parent");
    match err {
        GroupError::Aggregate(msg) => {
            assert!(msg.contains("PARENT_CO"));
            assert!(msg.contains("Parent"));
        }
        other => panic!("expected Aggregate, got {other:?}"),
    }
}

#[test]
fn control_increased_shrinks_nci_by_consideration() {
    let entity = make_entity("SUB", ConsolidationMethod::Full, Some(d(80, 2)));
    let event = equity_event(OwnershipChangeType::ControlIncreased, d(80, 2), d(90, 2), d(100, 0));
    let events = [event];
    let i = inputs(&entity, d(1000, 0), Dec::zero(), Dec::zero(), d(800, 0), None, &events, period_end(), period_end());
    let rf = compute_nci_rollforward(&i).unwrap();
    assert_eq!(rf.equity_transaction_adjustments, d(-10000, 2));
    assert_eq!(rf.closing_nci, d(90000, 2));
}

#[test]
fn control_decreased_grows_nci_by_consideration_received() {
    let entity = make_entity("SUB", ConsolidationMethod::Full, Some(d(80, 2)));
    let event = equity_event(OwnershipChangeType::ControlDecreased, d(90, 2), d(80, 2), d(-100, 0));
    let events = [event];
    let i = inputs(&entity, d(1000, 0), Dec::zero(), Dec::zero(), d(800, 0), None, &events, period_end(), period_end());
    let rf = compute_nci_rollforward(&i).unwrap();
    assert_eq!(rf.equity_transaction_adjustments, d(10000, 2));
    assert_eq!(rf.closing_nci, d(110000, 2));
}

#[test]
fn multiple_equity_transactions_sum() {
    let entity = make_entity("SUB", ConsolidationMethod::Full, Some(d(75, 2)));
    let events = vec![
        equity_event(OwnershipChangeType::ControlDecreased, d(80, 2), d(75, 2), d(-50, 0)),
        equity_event(OwnershipChangeType::ControlIncreased, d(75, 2), d(78, 2), d(30, 0)),
    ];
    let i = inputs(&entity, Dec::zero(), Dec::zero(), Dec::zero(), d(500, 0), None, &events, period_end(), period_end());
    let rf = compute_nci_rollforward(&i).unwrap();
    assert_eq!(rf.equity_transaction_adjustments, d(2000, 2));
    assert_eq!(rf.closing_nci, d(52000, 2));
}

#[test]
fn control_gained_at_period_start_is_full_period_contribution() {
    let entity = make_entity("SUB", ConsolidationMethod::Full, Some(d(80, 2)));
    let mut ev = equity_event(OwnershipChangeType::ControlGained, Dec::zero(), d(80, 2), d(5000, 0));
    ev.effective_date = ymd(2024, 1, 1);
    ev.acquisition_date_nci_fair_value = Some(d(1000, 0));
    let events = [ev];
    let i = inputs(&entity, d(2000, 0), Dec::zero(), Dec::zero(), Dec::zero(), None, &events, ymd(2024, 1, 1), ymd(2024, 3, 31));
    let rf = compute_nci_rollforward(&i).unwrap();
    assert_eq!(rf.opening_nci, d(1000, 0));
    assert_eq!(rf.nci_share_of_profit, d(40000, 2));
    assert_eq!(rf.closing_nci, d(140000, 2));
    assert_eq!(rf.pl_remeasurement_gain_or_loss, Dec::zero());
}

#[test]
fn control_gained_mid_period_pro_rates_profit() {
    let entity = make_entity("SUB", ConsolidationMethod::Full, Some(d(80, 2)));
    let mut ev = equity_event(OwnershipChangeType::ControlGained, Dec::zero(), d(80, 2), d(5000, 0));
    ev.effective_date = ymd(2024, 2, 15);
    ev.acquisition_date_nci_fair_value = Some(d(1000, 0));
    let events = [ev];
    let i = inputs(&entity, d(2000, 0), Dec::zero(), Dec::zero(), Dec::zero(), None, &events, ymd(2024, 1, 1), ymd(2024, 3, 31));
    let rf = compute_nci_rollforward(&i).unwrap();
    let weight = Decimal::from(46) / Decimal::from(91);
    let share = Decimal::new(20, 2) * Decimal::from(2000) * weight;
    let expected_share = share.round_dp(2);
    assert_eq!(rf.opening_nci, d(1000, 0));
    assert_eq!(rf.nci_share_of_profit, from_decimal(expected_share));
    let expected_close = (Decimal::from(1000) + share).round_dp(2);
    assert_eq!(rf.closing_nci, from_decimal(expected_close));
}

#[test]
fn control_gained_records_ifrs_3_42_remeasurement_gain() {
    let entity = make_entity("SUB", ConsolidationMethod::Full, Some(d(80, 2)));
    let mut ev = equity_event(OwnershipChangeType::ControlGained, Dec::zero(), d(80, 2), d(5000, 0));
    ev.effective_date = ymd(2024, 1, 1);
    ev.previously_held_interest_carrying = Some(d(800, 0));
    ev.previously_held_interest_fair_value = Some(d(1500, 0));
    ev.acquisition_date_nci_fair_value = Some(d(500, 0));
    let events = [ev];
    let i = inputs(&entity, Dec::zero(), Dec::zero(), Dec::zero(), Dec::zero(), None, &events, ymd(2024, 1, 1), ymd(2024, 3, 31));
    let rf = compute_nci_rollforward(&i).unwrap();
    assert_eq!(rf.pl_remeasurement_gain_or_loss, d(700, 0));
}

#[test]
fn control_lost_mid_period_rejected_with_v55_pointer() {
    let entity = make_entity("SUB", ConsolidationMethod::Full, Some(d(80, 2)));
    let event = equity_event(OwnershipChangeType::ControlLost, d(80, 2), Dec::zero(), d(-500, 0));
    let events = [event];
    let i = inputs(&entity, Dec::zero(), Dec::zero(), Dec::zero(), d(800, 0), None, &events, period_end(), period_end());
    let err = compute_nci_rollforward(&i).unwrap_err();
    let msg = err.message();
    assert!(msg.contains("ControlLost"));
    assert!(msg.contains("v5.5"));
}

#[test]
fn empty_ownership_changes_byte_identical_to_baseline() {
    let entity = make_entity("SUB", ConsolidationMethod::Full, Some(d(80, 2)));
    let i = inputs(&entity, d(1000, 0), d(200, 0), d(500, 0), d(800, 0), None, &[], period_end(), period_end());
    let rf = compute_nci_rollforward(&i).unwrap();
    assert_eq!(rf.equity_transaction_adjustments, Dec::zero());
    assert_eq!(rf.closing_nci, d(94000, 2));
}
