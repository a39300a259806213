use datasynth_group::aggregate::accounts::{default_account_type, AggregatedAccount};
use datasynth_group::aggregate::post_elim::{apply_line_to_account, recompute_totals, verify_balance_invariant};
use datasynth_group::aggregate::pre_elim::AggregatedTb;
use datasynth_group::date::Date;
use datasynth_group::dec::Dec;

fn d(m: i128, s: u32) -> Dec {
    Dec::new(m, s).unwrap()
}

fn empty_aggregated_tb(currency: &str) -> AggregatedTb {
    AggregatedTb {
        group_id: "TEST_GROUP".to_string(),
        currency: currency.to_string(),
        as_of_date: Date { year: 2024, month: 3, day: 31 },
        account_totals: Vec::new(),
        contributing_entities: vec!["E1".to_string()],
        deferred_entities: Vec::new(),
        total_debits: Dec::zero(),
        total_credits: Dec::zero(),
    }
}

fn account(tb: &AggregatedTb, code: &str) -> Option<AggregatedAccount> {
    tb.account_totals.iter().find(|a| a.account_code == code).cloned()
}

fn entry(code: &str, debit: Dec, credit: Dec, net: Dec, entities: u32) -> AggregatedAccount {
    AggregatedAccount {
        account_code: code.to_string(),
        debit_total: debit,
        credit_total: credit,
        net_balance: net,
        contributing_entities: entities,
        account_type: default_account_type(),
    }
}

#[test]
fn apply_line_creates_new_account_from_zero() {
    let mut tb = empty_aggregated_tb("CHF");
    apply_line_to_account(&mut tb, "9999", d(100, 0), Dec::zero()).unwrap();
    let acct = account(&tb, "9999").expect("must be created");
    assert_eq!(acct.debit_total, d(100, 0));
    assert_eq!(acct.credit_total, Dec::zero());
    assert_eq!(acct.net_balance, d(100, 0));
    assert_eq!(acct.contributing_entities, 0, "elimination must not bump contributing_entities");
}

#[test]
fn apply_line_accumulates_into_existing_account() {
    let mut tb = empty_aggregated_tb("CHF");
    tb.account_totals.push(entry("1100", d(500, 0), Dec::zero(), d(500, 0), 2));
    apply_line_to_account(&mut tb, "1100", Dec::zero(), d(200, 0)).unwrap();
    let acct = account(&tb, "1100").unwrap();
    assert_eq!(acct.debit_total, d(500, 0));
    assert_eq!(acct.credit_total, d(200, 0));
    assert_eq!(acct.net_balance, d(300, 0));
    assert_eq!(acct.contributing_entities, 2, "preserve existing contributing_entities count");
}

#[test]
fn recompute_totals_sums_the_per_account_view() {
    let mut tb = empty_aggregated_tb("CHF");
    tb.account_totals.push(entry("1100", d(1000, 0), Dec::zero(), d(1000, 0), 1));
    tb.account_totals.push(entry("3100", Dec::zero(), d(1000, 0), d(-1000, 0), 1));
    let (td, tc) = recompute_totals(&tb).unwrap();
    assert_eq!(td, d(1000, 0));
    assert_eq!(tc, d(1000, 0));
}

#[test]
fn verify_balance_invariant_passes_on_balanced_tb() {
    let mut tb = empty_aggregated_tb("CHF");
    tb.total_debits = d(500, 0);
    tb.total_credits = d(500, 0);
    verify_balance_invariant(&tb).expect("balanced must pass");
}

#[test]
fn verify_balance_invariant_passes_on_within_tolerance() {
    let mut tb = empty_aggregated_tb("CHF");
    tb.total_debits = d(500, 0);
    tb.total_credits = d(500005, 3);
    verify_balance_invariant(&tb).expect("within tolerance must pass");
}

#[test]
fn verify_balance_invariant_logs_unbalanced_tb_but_does_not_error() {
    let mut tb = empty_aggregated_tb("CHF");
    tb.total_debits = d(500, 0);
    tb.total_credits = d(400, 0);
    verify_balance_invariant(&tb).expect("unbalanced must pass under v5.0 fraud-tolerance contract");
}
