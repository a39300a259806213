use datasynth_group::aggregate::accounts::AccountType;
use datasynth_group::aggregate::opening_balance::extract_opening_balances;
use datasynth_group::aggregate::pre_elim::{TrialBalance, TrialBalanceLine};
use datasynth_group::date::Date;
use datasynth_group::dec::Dec;

fn d(m: i128, s: u32) -> Dec {
    Dec::new(m, s).unwrap()
}

fn line(code: &str, ty: AccountType, debit: Dec, credit: Dec) -> TrialBalanceLine {
    TrialBalanceLine { account_code: code.to_string(), account_type: ty, debit_balance: debit, credit_balance: credit }
}

fn make_tb(company_code: &str) -> TrialBalance {
    TrialBalance {
        company_code: company_code.to_string(),
        currency: "EUR".to_string(),
        as_of_date: Date { year: 2024, month: 3, day: 31 },
        lines: vec![
            line("1000", AccountType::Asset, d(10000, 0), Dec::zero()),
            line("1100", AccountType::Asset, d(5000, 0), Dec::zero()),
            line("2000", AccountType::Liability, Dec::zero(), d(3000, 0)),
            line("3000", AccountType::Equity, Dec::zero(), d(9000, 0)),
            line("4000", AccountType::Revenue, Dec::zero(), d(7000, 0)),
            line("5000", AccountType::Expense, d(4000, 0), Dec::zero()),
        ],
        total_debits: d(19000, 0),
        total_credits: d(19000, 0),
    }
}

#[test]
fn extract_opening_balances_drops_pl_accounts() {
    let tb = make_tb("E1");
    let openings = extract_opening_balances(&tb);
    assert_eq!(openings.len(), 4);
    let codes: Vec<&str> = openings.iter().map(|o| o.account_code.as_str()).collect();
    assert_eq!(codes, vec!["1000", "1100", "2000", "3000"]);
}

#[test]
fn extract_opening_balances_preserves_dr_cr_sides() {
    let tb = make_tb("E1");
    let openings = extract_opening_balances(&tb);
    let cash = openings.iter().find(|o| o.account_code == "1000").unwrap();
    assert_eq!(cash.debit, d(10000, 0));
    assert_eq!(cash.credit, Dec::zero());
    let ap = openings.iter().find(|o| o.account_code == "2000").unwrap();
    assert_eq!(ap.debit, Dec::zero());
    assert_eq!(ap.credit, d(3000, 0));
}

#[test]
fn extract_opening_balances_sorted_by_account_code() {
    let tb = make_tb("E1");
    let openings = extract_opening_balances(&tb);
    let codes: Vec<&str> = openings.iter().map(|o| o.account_code.as_str()).collect();
    let mut sorted = codes.clone();
    sorted.sort();
    assert_eq!(codes, sorted);
}

fn to_decimal(x: Dec) -> rust_decimal::Decimal {
    rust_decimal::Decimal::from_i128_with_scale(x.mantissa(), x.scale())
}

#[test]
fn extract_opening_balances_total_dr_equals_total_cr_for_balanced_tb() {
    let tb = make_tb("E1");
    let openings = extract_opening_balances(&tb);
    let total_dr: rust_decimal::Decimal = openings.iter().map(|o| to_decimal(o.debit)).sum();
    let total_cr: rust_decimal::Decimal = openings.iter().map(|o| to_decimal(o.credit)).sum();
    let pl_net = rust_decimal::Decimal::from(7000) - rust_decimal::Decimal::from(4000);
    assert_eq!(total_dr - total_cr, pl_net);
}

#[test]
fn lines_of_one_account_keep_their_order() {
    let mut tb = make_tb("E2");
    tb.lines = vec![
        line("1000", AccountType::Asset, d(7, 0), Dec::zero()),
        line("0500", AccountType::Asset, d(1, 0), Dec::zero()),
        line("1000", AccountType::Asset, d(5, 0), Dec::zero()),
        line("4000", AccountType::Revenue, Dec::zero(), d(2, 0)),
        line("1000", AccountType::Asset, d(9, 0), Dec::zero()),
    ];
    let openings = extract_opening_balances(&tb);
    let seen: Vec<(&str, i128)> = openings.iter().map(|o| (o.account_code.as_str(), o.debit.mantissa())).collect();
    assert_eq!(seen, vec![("0500", 1), ("1000", 7), ("1000", 5), ("1000", 9)]);
}
