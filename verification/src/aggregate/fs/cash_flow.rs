//! Consolidated cash flow statement (indirect method).
//!
//! Operating activities start from net income and add back depreciation,
//! amortisation and impairment, then the working-capital changes: an
//! increase in trade receivables (`1100`) or inventory (`1200`) is a use
//! of cash, an increase in trade payables (`2000`) a source.  Investing
//! holds capital expenditure; financing holds debt issuance and
//! repayment, equity issuance and dividends.  A line whose amount is zero
//! is left out (net income always stands).
//!
//! Cash is the sum of `debit - credit` over the accounts whose code
//! denotes 1000–1099.  The effect of exchange-rate changes on cash is the
//! residual `closing - opening - (operating + investing + financing)`, so
//! `opening + net change + fx effect = closing` always holds.
use vstd::prelude::*;
use vstd::string::*;

use crate::aggregate::accounts::{
    abs_dc, accounts_abs_total, accounts_map, accounts_max_scale, accounts_sorted, find_account,
    lemma_abs_total_prefix, lemma_map_at, AggregatedAccount,
};
use crate::aggregate::pre_elim::AggregatedTb;
use crate::date::Date;
use crate::dec::{abs, dec_add, dec_sub, fits_at, lemma_bounded_fits, max_nat, Dec};
use crate::errors::GroupError;
use crate::text::{parse_u32, parse_u32_spec};

verus! {

/// One cash-flow line.
#[derive(Debug, Clone)]
pub struct CfLine {
    pub label: String,
    pub amount: Dec,
}

/// A section of the statement: its lines and their sum.
#[derive(Debug, Clone)]
pub struct CfSection {
    pub lines: Vec<CfLine>,
    pub subtotal: Dec,
}

/// Consolidated cash flow statement.
#[derive(Debug, Clone)]
pub struct ConsolidatedCashFlow {
    pub group_id: String,
    pub period_start: Date,
    pub period_end: Date,
    pub currency: String,
    pub operating: CfSection,
    pub investing: CfSection,
    pub financing: CfSection,
    pub opening_cash: Dec,
    pub closing_cash: Dec,
    pub net_change_in_cash: Dec,
    pub fx_effect_on_cash: Dec,
}

/// What the statement is built from.
pub struct CashFlowInputs<'a> {
    pub post_elim_tb_current: &'a AggregatedTb,
    /// The prior period's trial balance; `None` in the first period.
    pub post_elim_tb_prior: Option<&'a AggregatedTb>,
    pub net_income: Dec,
    pub depreciation_amortization: Dec,
    pub impairment: Dec,
    pub capex: Dec,
    pub debt_issuance: Dec,
    pub debt_repayment: Dec,
    pub dividends_paid_to_owners: Dec,
    pub dividends_paid_to_nci: Dec,
    pub equity_issuance: Dec,
}

/// A code denotes a number in 1000–1099.
pub open spec fn is_cash_spec(code: Seq<char>) -> bool {
    parse_u32_spec(code) matches Some(n) && 1000 <= n <= 1099
}

/// Whether an account code is a cash account (1000–1099).
pub fn is_cash(code: &str) -> (r: bool)
    ensures
        r == is_cash_spec(code@),
{
    match parse_u32(code) {
        Some(n) => 1000 <= n && n <= 1099,
        None => false,
    }
}

/// The views of lines: label and amount in units.
pub open spec fn cf_views(v: Seq<CfLine>) -> Seq<(Seq<char>, int)> {
    v.map_values(|l: CfLine| (l.label@, l.amount.units()))
}

/// Sum of the amounts of line views.
pub open spec fn cf_views_total(v: Seq<(Seq<char>, int)>) -> int
    decreases v.len(),
{
    if v.len() == 0 {
        0
    } else {
        cf_views_total(v.drop_last()) + v.last().1
    }
}

/// Sum of the magnitudes of the lines' amounts.
pub open spec fn cf_abs_total(v: Seq<CfLine>) -> int
    decreases v.len(),
{
    if v.len() == 0 {
        0
    } else {
        cf_abs_total(v.drop_last()) + abs(v.last().amount.units())
    }
}

/// Largest scale among the lines' amounts.
pub open spec fn cf_max_scale(v: Seq<CfLine>) -> nat
    decreases v.len(),
{
    if v.len() == 0 {
        0
    } else {
        max_nat(cf_max_scale(v.drop_last()), v.last().amount.spec_scale())
    }
}

/// The lines' sum is computed exactly.
pub open spec fn cf_lines_fit(v: Seq<CfLine>) -> bool {
    fits_at(cf_abs_total(v), cf_max_scale(v))
}

proof fn lemma_cf_prefix(v: Seq<CfLine>, i: int)
    requires
        0 <= i < v.len(),
    ensures
        0 <= cf_abs_total(v.take(i)),
        cf_abs_total(v.take(i + 1)) == cf_abs_total(v.take(i)) + abs(v[i].amount.units()),
        cf_abs_total(v.take(i + 1)) <= cf_abs_total(v),
        cf_max_scale(v.take(i)) <= cf_max_scale(v),
        v[i].amount.spec_scale() <= cf_max_scale(v),
        cf_views_total(cf_views(v.take(i + 1))) == cf_views_total(cf_views(v.take(i)))
            + v[i].amount.units(),
    decreases v.len(),
{
    assert(v.take(i + 1).drop_last() =~= v.take(i));
    assert(cf_views(v.take(i + 1)).drop_last() =~= cf_views(v.take(i)));
    if i == v.len() - 1 {
        assert(v.take(i + 1) =~= v);
        if i > 0 {
            lemma_cf_prefix(v.drop_last(), i - 1);
            assert(v.drop_last().take(i) =~= v.take(i));
        }
    } else {
        lemma_cf_prefix(v.drop_last(), i);
        assert(v.drop_last().take(i) =~= v.take(i));
        assert(v.drop_last().take(i + 1) =~= v.take(i + 1));
    }
}

/// Sum of the lines' amounts, left to right from zero.  `None` when
/// `rust_decimal` reports an overflow, which [`cf_lines_fit`] rules out.
pub fn sum_lines(lines: &[CfLine]) -> (r: Option<Dec>)
    ensures
        cf_lines_fit(lines@) ==> (r matches Some(x) && x.units() == cf_views_total(cf_views(lines@))
            && x.spec_scale() <= cf_max_scale(lines@)),
{
    let ghost v = lines@;
    let mut acc = Dec::zero();
    let mut i: usize = 0;
    while i < lines.len()
        invariant
            v == lines@,
            i <= v.len(),
            cf_lines_fit(v) ==> {
                &&& acc.units() == cf_views_total(cf_views(v.take(i as int)))
                &&& abs(acc.units()) <= cf_abs_total(v.take(i as int))
                &&& acc.spec_scale() <= cf_max_scale(v)
            },
        decreases lines.len() - i,
    {
        proof {
            lemma_cf_prefix(v, i as int);
            if cf_lines_fit(v) {
                lemma_bounded_fits(
                    acc.units() + v[i as int].amount.units(),
                    cf_abs_total(v),
                    cf_max_scale(v),
                    max_nat(acc.spec_scale(), v[i as int].amount.spec_scale()),
                );
            }
        }
        acc = match dec_add(acc, lines[i].amount) {
            Some(x) => x,
            None => {
                return None;
            },
        };
        i = i + 1;
    }
    proof {
        assert(v.take(i as int) =~= v);
    }
    Some(acc)
}

/// Cash held at the end of a trial balance: `Σ debit - credit` over the
/// cash accounts.
pub open spec fn cash_total(s: Seq<AggregatedAccount>) -> int
    decreases s.len(),
{
    if s.len() == 0 {
        0
    } else {
        cash_total(s.drop_last()) + if is_cash_spec(s.last().account_code@) {
            s.last().debit_total.units() - s.last().credit_total.units()
        } else {
            0
        }
    }
}

/// The accounts' bound fits at their own largest scale.
pub open spec fn tb_fits(s: Seq<AggregatedAccount>) -> bool {
    fits_at(accounts_abs_total(s), accounts_max_scale(s))
}

/// Cash held per the trial balance.  `None` only on overflow, which
/// [`tb_fits`] rules out.
pub fn sum_cash(tb: &AggregatedTb) -> (r: Option<Dec>)
    ensures
        tb_fits(tb.account_totals@) ==> (r matches Some(x) && x.units() == cash_total(
            tb.account_totals@,
        ) && abs(x.units()) <= accounts_abs_total(tb.account_totals@) && x.spec_scale()
            <= accounts_max_scale(tb.account_totals@)),
{
    let accts = &tb.account_totals;
    let ghost s = accts@;
    let ghost fits = tb_fits(s);
    let mut acc = Dec::zero();
    let mut i: usize = 0;
    proof {
        lemma_abs_total_prefix(s, 0);
    }
    while i < accts.len()
        invariant
            s == accts@,
            s == tb.account_totals@,
            i <= s.len(),
            fits == tb_fits(s),
            fits ==> {
                &&& acc.units() == cash_total(s.take(i as int))
                &&& abs(acc.units()) <= accounts_abs_total(s.take(i as int))
                &&& acc.spec_scale() <= accounts_max_scale(s)
            },
        decreases accts.len() - i,
    {
        proof {
            lemma_abs_total_prefix(s, i as int);
            lemma_abs_total_prefix(s, i + 1);
            assert(s.take(i + 1).drop_last() =~= s.take(i as int));
            assert(s.take(i + 1).last() == s[i as int]);
        }
        let a = &accts[i];
        if is_cash(a.account_code.as_str()) {
            proof {
                if fits {
                    let d = a.debit_total;
                    let c = a.credit_total;
                    lemma_bounded_fits(d.units() - c.units(), accounts_abs_total(s), accounts_max_scale(s), max_nat(d.spec_scale(), c.spec_scale()));
                }
            }
            let net = match dec_sub(a.debit_total, a.credit_total) {
                Some(x) => x,
                None => {
                    return None;
                },
            };
            proof {
                if fits {
                    assert(abs(net.units()) <= abs_dc(s[i as int]));
                    assert(net.spec_scale() <= accounts_max_scale(s));
                    lemma_bounded_fits(acc.units() + net.units(), accounts_abs_total(s), accounts_max_scale(s), max_nat(acc.spec_scale(), net.spec_scale()));
                }
            }
            acc = match dec_add(acc, net) {
                Some(x) => x,
                None => {
                    return None;
                },
            };
        }
        i = i + 1;
    }
    proof {
        assert(s.take(i as int) =~= s);
    }
    Some(acc)
}

/// `debit - credit` of the account `code`, zero when absent.
pub open spec fn natural_debit(s: Seq<AggregatedAccount>, code: Seq<char>) -> int {
    if accounts_map(s).contains_key(code) {
        accounts_map(s)[code].debit_total.units() - accounts_map(s)[code].credit_total.units()
    } else {
        0
    }
}

/// `credit - debit` of the account `code`, zero when absent.
pub open spec fn natural_credit(s: Seq<AggregatedAccount>, code: Seq<char>) -> int {
    if accounts_map(s).contains_key(code) {
        accounts_map(s)[code].credit_total.units() - accounts_map(s)[code].debit_total.units()
    } else {
        0
    }
}

/// Balance of `code` on its natural side (`debit - credit` when
/// `debit_side`, else `credit - debit`); zero when the account is absent.
/// `None` only on overflow, which [`tb_fits`] rules out.
fn natural_balance(tb: &AggregatedTb, code: &str, debit_side: bool) -> (r: Option<Dec>)
    requires
        accounts_sorted(tb.account_totals@),
    ensures
        tb_fits(tb.account_totals@) ==> (r matches Some(x) && x.units() == (if debit_side {
            natural_debit(tb.account_totals@, code@)
        } else {
            natural_credit(tb.account_totals@, code@)
        }) && abs(x.units()) <= accounts_abs_total(tb.account_totals@) && x.spec_scale()
            <= accounts_max_scale(tb.account_totals@)),
{
    let ghost s = tb.account_totals@;
    proof {
        lemma_abs_total_prefix(s, 0);
    }
    let (found, i) = find_account(&tb.account_totals, code);
    if !found {
        return Some(Dec::zero());
    }
    proof {
        lemma_map_at(s, i as int);
        lemma_abs_total_prefix(s, i as int);
        lemma_abs_total_prefix(s, i + 1);
        lemma_abs_total_prefix(s, 0);
        if tb_fits(s) {
            let d = s[i as int].debit_total;
            let c = s[i as int].credit_total;
            lemma_bounded_fits(d.units() - c.units(), accounts_abs_total(s), accounts_max_scale(s), max_nat(d.spec_scale(), c.spec_scale()));
            lemma_bounded_fits(c.units() - d.units(), accounts_abs_total(s), accounts_max_scale(s), max_nat(c.spec_scale(), d.spec_scale()));
        }
    }
    let a = &tb.account_totals[i];
    if debit_side {
        dec_sub(a.debit_total, a.credit_total)
    } else {
        dec_sub(a.credit_total, a.debit_total)
    }
}

/// Balance of `code` as `debit - credit` (zero when absent).
pub fn sum_natural_balance(tb: &AggregatedTb, code: &str) -> (r: Option<Dec>)
    requires
        accounts_sorted(tb.account_totals@),
    ensures
        tb_fits(tb.account_totals@) ==> (r matches Some(x) && x.units() == natural_debit(
            tb.account_totals@,
            code@,
        )),
{
    natural_balance(tb, code, true)
}

/// Balance of `code` as `credit - debit` (zero when absent).
pub fn sum_natural_balance_credit(tb: &AggregatedTb, code: &str) -> (r: Option<Dec>)
    requires
        accounts_sorted(tb.account_totals@),
    ensures
        tb_fits(tb.account_totals@) ==> (r matches Some(x) && x.units() == natural_credit(
            tb.account_totals@,
            code@,
        )),
{
    natural_balance(tb, code, false)
}

/// Working-capital changes (ΔAR, ΔAP, Δinventory) between the prior and
/// the current trial balance; all zero in the first period.
pub open spec fn wc_changes(cur: Seq<AggregatedAccount>, prior: Option<Seq<AggregatedAccount>>) -> (
    int,
    int,
    int,
) {
    match prior {
        None => (0, 0, 0),
        Some(p) => (
            natural_debit(cur, "1100"@) - natural_debit(p, "1100"@),
            natural_credit(cur, "2000"@) - natural_credit(p, "2000"@),
            natural_debit(cur, "1200"@) - natural_debit(p, "1200"@),
        ),
    }
}

/// The account view of an optional trial balance.
pub open spec fn prior_view(prior: Option<&AggregatedTb>) -> Option<Seq<AggregatedAccount>> {
    match prior {
        Some(p) => Some(p.account_totals@),
        None => None,
    }
}

/// Bound of the optional prior trial balance (zero when absent).
pub open spec fn prior_abs_total(prior: Option<&AggregatedTb>) -> int {
    match prior {
        Some(p) => accounts_abs_total(p.account_totals@),
        None => 0,
    }
}

/// Largest scale of the optional prior trial balance (zero when absent).
pub open spec fn prior_max_scale(prior: Option<&AggregatedTb>) -> nat {
    match prior {
        Some(p) => accounts_max_scale(p.account_totals@),
        None => 0,
    }
}

/// Working-capital changes, each as one `Dec`.  `None` only on overflow.
pub fn working_capital_changes(current: &AggregatedTb, prior: Option<&AggregatedTb>) -> (r: Option<
    (Dec, Dec, Dec),
>)
    requires
        accounts_sorted(current.account_totals@),
        prior matches Some(p) ==> accounts_sorted(p.account_totals@),
    ensures
        ({
            let b = accounts_abs_total(current.account_totals@) + prior_abs_total(prior);
            let sc = max_nat(accounts_max_scale(current.account_totals@), prior_max_scale(prior));
            fits_at(b, sc) ==> (r matches Some(t) && (t.0.units(), t.1.units(), t.2.units())
                == wc_changes(current.account_totals@, prior_view(prior)) && abs(t.0.units())
                <= b && abs(t.1.units()) <= b && abs(t.2.units()) <= b && t.0.spec_scale() <= sc
                && t.1.spec_scale() <= sc && t.2.spec_scale() <= sc)
        }),
{
    proof {
        lemma_abs_total_prefix(current.account_totals@, 0);
    }
    let p = match prior {
        Some(p) => p,
        None => {
            return Some((Dec::zero(), Dec::zero(), Dec::zero()));
        },
    };
    let ghost b = accounts_abs_total(current.account_totals@) + prior_abs_total(prior);
    let ghost sc = max_nat(accounts_max_scale(current.account_totals@), prior_max_scale(prior));
    let ghost fits = fits_at(b, sc);
    proof {
        lemma_abs_total_prefix(current.account_totals@, 0);
        lemma_abs_total_prefix(p.account_totals@, 0);
        if fits {
            lemma_bounded_fits(accounts_abs_total(current.account_totals@), b, sc, accounts_max_scale(current.account_totals@));
            lemma_bounded_fits(accounts_abs_total(p.account_totals@), b, sc, accounts_max_scale(p.account_totals@));
        }
    }
    let cur_ar = natural_balance(current, "1100", true);
    let prior_ar = natural_balance(p, "1100", true);
    let cur_ap = natural_balance(current, "2000", false);
    let prior_ap = natural_balance(p, "2000", false);
    let cur_inv = natural_balance(current, "1200", true);
    let prior_inv = natural_balance(p, "1200", true);
    match (cur_ar, prior_ar, cur_ap, prior_ap, cur_inv, prior_inv) {
        (Some(a1), Some(a0), Some(p1), Some(p0), Some(i1), Some(i0)) => {
            proof {
                if fits {
                    lemma_bounded_fits(a1.units() - a0.units(), b, sc, max_nat(a1.spec_scale(), a0.spec_scale()));
                    lemma_bounded_fits(p1.units() - p0.units(), b, sc, max_nat(p1.spec_scale(), p0.spec_scale()));
                    lemma_bounded_fits(i1.units() - i0.units(), b, sc, max_nat(i1.spec_scale(), i0.spec_scale()));
                }
            }
            match (dec_sub(a1, a0), dec_sub(p1, p0), dec_sub(i1, i0)) {
                (Some(x), Some(y), Some(z)) => Some((x, y, z)),
                _ => None,
            }
        },
        _ => None,
    }
}

/// A line `(label, amount)`, left out when the amount is zero.
pub open spec fn opt_line(label: Seq<char>, amount: int) -> Seq<(Seq<char>, int)> {
    if amount != 0 {
        seq![(label, amount)]
    } else {
        Seq::empty()
    }
}

/// Operating lines: net income, non-cash add-backs, working-capital
/// changes.
pub open spec fn operating_spec(ni: int, da: int, imp: int, dar: int, dinv: int, dap: int) -> Seq<
    (Seq<char>, int),
> {
    seq![("Net income"@, ni)] + opt_line("Depreciation and amortization"@, da) + opt_line(
        "Impairment"@,
        imp,
    ) + opt_line("Change in trade receivables"@, -dar) + opt_line("Change in inventory"@, -dinv)
        + opt_line("Change in trade payables"@, dap)
}

/// Financing lines.
pub open spec fn financing_spec(di: int, dr: int, ei: int, dpo: int, dpn: int) -> Seq<
    (Seq<char>, int),
> {
    opt_line("Debt issuance"@, di) + opt_line("Debt repayment"@, -dr) + opt_line(
        "Equity issuance"@,
        ei,
    ) + opt_line("Dividends paid to owners"@, -dpo) + opt_line(
        "Dividends paid to non-controlling interest"@,
        -dpn,
    )
}

/// Sum of the magnitudes of the explicit inputs.
pub open spec fn inputs_abs(i: CashFlowInputs) -> int {
    abs(i.net_income.units()) + abs(i.depreciation_amortization.units()) + abs(
        i.impairment.units(),
    ) + abs(i.capex.units()) + abs(i.debt_issuance.units()) + abs(i.debt_repayment.units()) + abs(
        i.dividends_paid_to_owners.units(),
    ) + abs(i.dividends_paid_to_nci.units()) + abs(i.equity_issuance.units())
}

/// Largest scale among the explicit inputs.
pub open spec fn inputs_max_scale(i: CashFlowInputs) -> nat {
    max_nat(
        max_nat(
            max_nat(i.net_income.spec_scale(), i.depreciation_amortization.spec_scale()),
            max_nat(i.impairment.spec_scale(), i.capex.spec_scale()),
        ),
        max_nat(
            max_nat(i.debt_issuance.spec_scale(), i.debt_repayment.spec_scale()),
            max_nat(
                max_nat(i.dividends_paid_to_owners.spec_scale(), i.dividends_paid_to_nci.spec_scale()),
                i.equity_issuance.spec_scale(),
            ),
        ),
    )
}

/// Bound of the trial balances involved.
pub open spec fn tbs_abs(i: CashFlowInputs) -> int {
    accounts_abs_total(i.post_elim_tb_current.account_totals@) + prior_abs_total(
        i.post_elim_tb_prior,
    )
}

/// Largest scale of everything the statement is computed from.
pub open spec fn cf_scale(i: CashFlowInputs) -> nat {
    max_nat(
        inputs_max_scale(i),
        max_nat(
            accounts_max_scale(i.post_elim_tb_current.account_totals@),
            prior_max_scale(i.post_elim_tb_prior),
        ),
    )
}

/// Every sum the statement computes is exact.
pub open spec fn cf_fits(i: CashFlowInputs) -> bool {
    fits_at(inputs_abs(i) + 4 * tbs_abs(i), cf_scale(i))
}

/// The statement follows from the inputs.
pub open spec fn cf_matches(cf: ConsolidatedCashFlow, i: CashFlowInputs) -> bool {
    let cur = i.post_elim_tb_current.account_totals@;
    let wc = wc_changes(cur, prior_view(i.post_elim_tb_prior));
    &&& cf_views(cf.operating.lines@) == operating_spec(
        i.net_income.units(),
        i.depreciation_amortization.units(),
        i.impairment.units(),
        wc.0,
        wc.2,
        wc.1,
    )
    &&& cf_views(cf.investing.lines@) == opt_line("Capital expenditure"@, -i.capex.units())
    &&& cf_views(cf.financing.lines@) == financing_spec(
        i.debt_issuance.units(),
        i.debt_repayment.units(),
        i.equity_issuance.units(),
        i.dividends_paid_to_owners.units(),
        i.dividends_paid_to_nci.units(),
    )
    &&& cf.operating.subtotal.units() == cf_views_total(cf_views(cf.operating.lines@))
    &&& cf.investing.subtotal.units() == cf_views_total(cf_views(cf.investing.lines@))
    &&& cf.financing.subtotal.units() == cf_views_total(cf_views(cf.financing.lines@))
    &&& cf.opening_cash.units() == match prior_view(i.post_elim_tb_prior) {
        Some(p) => cash_total(p),
        None => 0,
    }
    &&& cf.closing_cash.units() == cash_total(cur)
    &&& cf.net_change_in_cash.units() == cf.operating.subtotal.units()
        + cf.investing.subtotal.units() + cf.financing.subtotal.units()
    &&& cf.fx_effect_on_cash.units() == cf.closing_cash.units() - cf.opening_cash.units()
        - cf.net_change_in_cash.units()
}

/// The receivables balance of the accounts: debit minus credit of
/// account `1100`, zero when absent.
pub open spec fn receivables_balance(s: Seq<AggregatedAccount>) -> int {
    let m = accounts_map(s);
    if m.contains_key("1100"@) {
        m["1100"@].debit_total.units() - m["1100"@].credit_total.units()
    } else {
        0
    }
}

/// An increase in trade receivables is a use of cash: the operating
/// section's "Change in trade receivables" line is minus the growth of the
/// receivables balance from the prior trial balance to the current one,
/// and it is there whenever that growth is not zero.
pub proof fn law_receivables_increase_uses_cash(cf: ConsolidatedCashFlow, inputs: CashFlowInputs, prior: AggregatedTb)
    requires
        cf_matches(cf, inputs),
        inputs.post_elim_tb_prior == Some(&prior),
    ensures
        ({
            let growth = receivables_balance(inputs.post_elim_tb_current.account_totals@) - receivables_balance(
                prior.account_totals@,
            );
            &&& forall|k: int|
                0 <= k < cf.operating.lines@.len() && (#[trigger] cf.operating.lines@[k]).label@ == "Change in trade receivables"@
                    ==> cf.operating.lines@[k].amount.units() == -growth
            &&& growth != 0 ==> exists|k: int|
                0 <= k < cf.operating.lines@.len() && (#[trigger] cf.operating.lines@[k]).label@ == "Change in trade receivables"@
                    && cf.operating.lines@[k].amount.units() == -growth
        }),
{
    reveal_strlit("Change in trade receivables");
    reveal_strlit("Net income");
    reveal_strlit("Depreciation and amortization");
    reveal_strlit("Impairment");
    reveal_strlit("Change in inventory");
    reveal_strlit("Change in trade payables");
    let cur = inputs.post_elim_tb_current.account_totals@;
    let growth = receivables_balance(cur) - receivables_balance(prior.account_totals@);
    let wc = wc_changes(cur, prior_view(inputs.post_elim_tb_prior));
    assert(wc.0 == growth);
    let lines = cf.operating.lines@;
    let v = cf_views(lines);
    let a = seq![("Net income"@, inputs.net_income.units())] + opt_line(
        "Depreciation and amortization"@,
        inputs.depreciation_amortization.units(),
    ) + opt_line("Impairment"@, inputs.impairment.units());
    let r = opt_line("Change in trade receivables"@, -wc.0);
    let b = opt_line("Change in inventory"@, -wc.2) + opt_line("Change in trade payables"@, wc.1);
    assert(v == a + r + b);
    let lbl = "Change in trade receivables"@;
    assert forall|k: int| 0 <= k < lines.len() && (#[trigger] lines[k]).label@ == lbl implies lines[k].amount.units() == -growth by {
        assert(v[k] == (lines[k].label@, lines[k].amount.units()));
        if k < a.len() {
            assert((a + r + b)[k] == a[k]);
            assert(a[k].0 == "Net income"@ || a[k].0 == "Depreciation and amortization"@ || a[k].0 == "Impairment"@);
        } else if k < a.len() + r.len() {
            assert((a + r + b)[k] == r[k - a.len()]);
        } else {
            assert((a + r + b)[k] == b[k - a.len() - r.len()]);
            assert(b[k - a.len() - r.len()].0 == "Change in inventory"@ || b[k - a.len() - r.len()].0
                == "Change in trade payables"@);
        }
    }
    if growth != 0 {
        let k = a.len() as int;
        assert((a + r + b)[k] == r[0]);
        assert(v[k] == (lines[k].label@, lines[k].amount.units()));
        assert(lines[k].label@ == lbl && lines[k].amount.units() == -growth);
    }
}

/// Append `(label, amount)` unless the amount is zero.
fn push_nonzero(lines: &mut Vec<CfLine>, label: &str, amount: Dec)
    ensures
        cf_views(final(lines)@) == cf_views(old(lines)@) + opt_line(label@, amount.units()),
        cf_abs_total(final(lines)@) == cf_abs_total(old(lines)@) + abs(amount.units()),
        cf_max_scale(final(lines)@) <= max_nat(cf_max_scale(old(lines)@), amount.spec_scale()),
{
    if !amount.is_zero() {
        let ghost before = lines@;
        lines.push(CfLine { label: label.to_string(), amount });
        proof {
            assert(lines@.drop_last() =~= before);
            assert(cf_views(lines@) =~= cf_views(before) + opt_line(label@, amount.units()));
        }
    } else {
        proof {
            assert(cf_views(lines@) =~= cf_views(lines@) + opt_line(label@, amount.units()));
        }
    }
}

fn cf_overflow() -> (r: GroupError)
    ensures
        r matches GroupError::Aggregate(m) && m@ == "cash flow: a decimal sum overflows"@,
{
    GroupError::Aggregate("cash flow: a decimal sum overflows".to_string())
}

/// Magnitude of a line total is at most the sum of the magnitudes.
proof fn lemma_cf_total_bound(v: Seq<CfLine>)
    ensures
        abs(cf_views_total(cf_views(v))) <= cf_abs_total(v),
        0 <= cf_abs_total(v),
    decreases v.len(),
{
    if v.len() > 0 {
        lemma_cf_total_bound(v.drop_last());
        assert(cf_views(v).drop_last() =~= cf_views(v.drop_last()));
    }
}

/// The operating lines.
fn operating_section(inputs: &CashFlowInputs, delta_ar: Dec, delta_inventory: Dec, delta_ap: Dec) -> (v: Vec<CfLine>)
    ensures
        cf_views(v@) == operating_spec(
            inputs.net_income.units(),
            inputs.depreciation_amortization.units(),
            inputs.impairment.units(),
            delta_ar.units(),
            delta_inventory.units(),
            delta_ap.units(),
        ),
        cf_abs_total(v@) == abs(inputs.net_income.units()) + abs(inputs.depreciation_amortization.units())
            + abs(inputs.impairment.units()) + abs(delta_ar.units()) + abs(delta_inventory.units())
            + abs(delta_ap.units()),
        cf_max_scale(v@) <= max_nat(
            max_nat(inputs.net_income.spec_scale(), inputs.depreciation_amortization.spec_scale()),
            max_nat(
                inputs.impairment.spec_scale(),
                max_nat(delta_ar.spec_scale(), max_nat(delta_inventory.spec_scale(), delta_ap.spec_scale())),
            ),
        ),
{
    let mut lines: Vec<CfLine> = Vec::new();
    lines.push(CfLine { label: "Net income".to_string(), amount: inputs.net_income });
    proof {
        assert(lines@.drop_last() =~= Seq::<CfLine>::empty());
        assert(cf_views(lines@) =~= seq![("Net income"@, inputs.net_income.units())]);
        assert(cf_abs_total(Seq::<CfLine>::empty()) == 0);
        assert(cf_max_scale(Seq::<CfLine>::empty()) == 0);
        assert(cf_abs_total(lines@) == abs(inputs.net_income.units()));
        assert(cf_max_scale(lines@) == inputs.net_income.spec_scale());
    }
    push_nonzero(&mut lines, "Depreciation and amortization", inputs.depreciation_amortization);
    push_nonzero(&mut lines, "Impairment", inputs.impairment);
    push_nonzero(&mut lines, "Change in trade receivables", delta_ar.neg());
    push_nonzero(&mut lines, "Change in inventory", delta_inventory.neg());
    push_nonzero(&mut lines, "Change in trade payables", delta_ap);
    lines
}

/// The financing lines.
fn financing_section(inputs: &CashFlowInputs) -> (v: Vec<CfLine>)
    ensures
        cf_views(v@) == financing_spec(
            inputs.debt_issuance.units(),
            inputs.debt_repayment.units(),
            inputs.equity_issuance.units(),
            inputs.dividends_paid_to_owners.units(),
            inputs.dividends_paid_to_nci.units(),
        ),
        cf_abs_total(v@) == abs(inputs.debt_issuance.units()) + abs(inputs.debt_repayment.units())
            + abs(inputs.equity_issuance.units()) + abs(inputs.dividends_paid_to_owners.units())
            + abs(inputs.dividends_paid_to_nci.units()),
        cf_max_scale(v@) <= max_nat(
            max_nat(inputs.debt_issuance.spec_scale(), inputs.debt_repayment.spec_scale()),
            max_nat(
                inputs.equity_issuance.spec_scale(),
                max_nat(inputs.dividends_paid_to_owners.spec_scale(), inputs.dividends_paid_to_nci.spec_scale()),
            ),
        ),
{
    let mut lines: Vec<CfLine> = Vec::new();
    push_nonzero(&mut lines, "Debt issuance", inputs.debt_issuance);
    proof {
        assert(cf_views(Seq::<CfLine>::empty()) =~= Seq::empty());
        assert(Seq::<(Seq<char>, int)>::empty() + opt_line("Debt issuance"@, inputs.debt_issuance.units())
            =~= opt_line("Debt issuance"@, inputs.debt_issuance.units()));
    }
    push_nonzero(&mut lines, "Debt repayment", inputs.debt_repayment.neg());
    push_nonzero(&mut lines, "Equity issuance", inputs.equity_issuance);
    push_nonzero(&mut lines, "Dividends paid to owners", inputs.dividends_paid_to_owners.neg());
    push_nonzero(&mut lines, "Dividends paid to non-controlling interest", inputs.dividends_paid_to_nci.neg());
    lines
}

/// The three sections match the inputs, each subtotal is its lines' sum,
/// and the subtotals stay within the statement's bound and scale.
pub open spec fn sections_match(
    op: CfSection,
    inv: CfSection,
    fin: CfSection,
    i: CashFlowInputs,
) -> bool {
    let wc = wc_changes(i.post_elim_tb_current.account_totals@, prior_view(i.post_elim_tb_prior));
    &&& cf_views(op.lines@) == operating_spec(
        i.net_income.units(),
        i.depreciation_amortization.units(),
        i.impairment.units(),
        wc.0,
        wc.2,
        wc.1,
    )
    &&& cf_views(inv.lines@) == opt_line("Capital expenditure"@, -i.capex.units())
    &&& cf_views(fin.lines@) == financing_spec(
        i.debt_issuance.units(),
        i.debt_repayment.units(),
        i.equity_issuance.units(),
        i.dividends_paid_to_owners.units(),
        i.dividends_paid_to_nci.units(),
    )
    &&& op.subtotal.units() == cf_views_total(cf_views(op.lines@))
    &&& inv.subtotal.units() == cf_views_total(cf_views(inv.lines@))
    &&& fin.subtotal.units() == cf_views_total(cf_views(fin.lines@))
    &&& abs(op.subtotal.units()) + abs(inv.subtotal.units()) + abs(fin.subtotal.units())
        <= inputs_abs(i) + 3 * tbs_abs(i)
    &&& op.subtotal.spec_scale() <= cf_scale(i)
    &&& inv.subtotal.spec_scale() <= cf_scale(i)
    &&& fin.subtotal.spec_scale() <= cf_scale(i)
}

/// The operating, investing and financing sections.
#[verifier::rlimit(60)]
fn cash_flow_sections(inputs: &CashFlowInputs) -> (r: Result<(CfSection, CfSection, CfSection), GroupError>)
    requires
        accounts_sorted(inputs.post_elim_tb_current.account_totals@),
        inputs.post_elim_tb_prior matches Some(p) ==> accounts_sorted(p.account_totals@),
    ensures
        cf_fits(*inputs) ==> (r matches Ok(t) && sections_match(t.0, t.1, t.2, *inputs)),
{
    let ghost fits = cf_fits(*inputs);
    let ghost b = inputs_abs(*inputs) + 4 * tbs_abs(*inputs);
    let ghost sc = cf_scale(*inputs);
    let cur = inputs.post_elim_tb_current;
    proof {
        lemma_abs_total_prefix(cur.account_totals@, 0);
        if let Some(p) = inputs.post_elim_tb_prior {
            lemma_abs_total_prefix(p.account_totals@, 0);
        }
        if fits {
            lemma_bounded_fits(tbs_abs(*inputs), b, sc, max_nat(accounts_max_scale(cur.account_totals@), prior_max_scale(inputs.post_elim_tb_prior)));
        }
    }
    let (delta_ar, delta_ap, delta_inventory) = match working_capital_changes(cur, inputs.post_elim_tb_prior) {
        Some(t) => t,
        None => {
            return Err(cf_overflow());
        },
    };
    let operating_lines = operating_section(inputs, delta_ar, delta_inventory, delta_ap);
    let investing_lines = investing_section(inputs);
    let financing_lines = financing_section(inputs);
    proof {
        if fits {
            lemma_bounded_fits(cf_abs_total(operating_lines@), b, sc, cf_max_scale(operating_lines@));
            lemma_bounded_fits(cf_abs_total(investing_lines@), b, sc, cf_max_scale(investing_lines@));
            lemma_bounded_fits(cf_abs_total(financing_lines@), b, sc, cf_max_scale(financing_lines@));
        }
        lemma_cf_total_bound(operating_lines@);
        lemma_cf_total_bound(investing_lines@);
        lemma_cf_total_bound(financing_lines@);
    }
    let operating_subtotal = match sum_lines(operating_lines.as_slice()) {
        Some(x) => x,
        None => {
            return Err(cf_overflow());
        },
    };
    let investing_subtotal = match sum_lines(investing_lines.as_slice()) {
        Some(x) => x,
        None => {
            return Err(cf_overflow());
        },
    };
    let financing_subtotal = match sum_lines(financing_lines.as_slice()) {
        Some(x) => x,
        None => {
            return Err(cf_overflow());
        },
    };
    Ok((
        CfSection { lines: operating_lines, subtotal: operating_subtotal },
        CfSection { lines: investing_lines, subtotal: investing_subtotal },
        CfSection { lines: financing_lines, subtotal: financing_subtotal },
    ))
}

/// The investing lines.
fn investing_section(inputs: &CashFlowInputs) -> (v: Vec<CfLine>)
    ensures
        cf_views(v@) == opt_line("Capital expenditure"@, -inputs.capex.units()),
        cf_abs_total(v@) == abs(inputs.capex.units()),
        cf_max_scale(v@) <= inputs.capex.spec_scale(),
{
    let mut lines: Vec<CfLine> = Vec::new();
    push_nonzero(&mut lines, "Capital expenditure", inputs.capex.neg());
    proof {
        assert(cf_views(Seq::<CfLine>::empty()) =~= Seq::empty());
        assert(Seq::<(Seq<char>, int)>::empty() + opt_line("Capital expenditure"@, -inputs.capex.units())
            =~= opt_line("Capital expenditure"@, -inputs.capex.units()));
    }
    lines
}

/// Build the consolidated cash flow statement (indirect method).  `Err`
/// only when `rust_decimal` reports an overflow, which [`cf_fits`] rules
/// out.
#[verifier::rlimit(60)]
pub fn build_consolidated_cash_flow(
    inputs: &CashFlowInputs,
    group_id: &str,
    period_start: Date,
    period_end: Date,
) -> (r: Result<ConsolidatedCashFlow, GroupError>)
    requires
        accounts_sorted(inputs.post_elim_tb_current.account_totals@),
        inputs.post_elim_tb_prior matches Some(p) ==> accounts_sorted(p.account_totals@),
    ensures
        cf_fits(*inputs) ==> r is Ok,
        r matches Ok(cf) ==> {
            &&& cf.group_id@ == group_id@
            &&& cf.period_start == period_start
            &&& cf.period_end == period_end
            &&& cf.currency@ == inputs.post_elim_tb_current.currency@
            &&& cf_fits(*inputs) ==> cf_matches(cf, *inputs)
            &&& cf_fits(*inputs) ==> cf.opening_cash.units() + cf.net_change_in_cash.units()
                + cf.fx_effect_on_cash.units() == cf.closing_cash.units()
        },
{
    let ghost fits = cf_fits(*inputs);
    let ghost b = inputs_abs(*inputs) + 4 * tbs_abs(*inputs);
    let ghost sc = cf_scale(*inputs);
    let cur = inputs.post_elim_tb_current;
    let (operating, investing, financing) = match cash_flow_sections(inputs) {
        Ok(t) => t,
        Err(e) => {
            return Err(e);
        },
    };
    proof {
        lemma_abs_total_prefix(cur.account_totals@, 0);
        if let Some(p) = inputs.post_elim_tb_prior {
            lemma_abs_total_prefix(p.account_totals@, 0);
        }
        if fits {
            lemma_bounded_fits(accounts_abs_total(cur.account_totals@), b, sc, accounts_max_scale(cur.account_totals@));
            if let Some(p) = inputs.post_elim_tb_prior {
                lemma_bounded_fits(accounts_abs_total(p.account_totals@), b, sc, accounts_max_scale(p.account_totals@));
            }
        }
    }
    let opening_cash = match inputs.post_elim_tb_prior {
        Some(prior) => match sum_cash(prior) {
            Some(x) => x,
            None => {
                return Err(cf_overflow());
            },
        },
        None => Dec::zero(),
    };
    let closing_cash = match sum_cash(cur) {
        Some(x) => x,
        None => {
            return Err(cf_overflow());
        },
    };
    let (net_change_in_cash, fx_effect_on_cash) = match cash_bridge(
        operating.subtotal,
        investing.subtotal,
        financing.subtotal,
        opening_cash,
        closing_cash,
        Ghost(b),
        Ghost(sc),
    ) {
        Some(t) => t,
        None => {
            return Err(cf_overflow());
        },
    };
    Ok(ConsolidatedCashFlow {
        group_id: group_id.to_string(),
        period_start,
        period_end,
        currency: cur.currency.clone(),
        operating,
        investing,
        financing,
        opening_cash,
        closing_cash,
        net_change_in_cash,
        fx_effect_on_cash,
    })
}

/// Net change (`op + inv + fin`) and the FX residual
/// (`closing - opening - net`).  Exact when all magnitudes together stay
/// within `b`, which fits at `sc`.
fn cash_bridge(
    op: Dec,
    inv: Dec,
    fin: Dec,
    opening: Dec,
    closing: Dec,
    Ghost(b): Ghost<int>,
    Ghost(sc): Ghost<nat>,
) -> (r: Option<(Dec, Dec)>)
    ensures
        ({
            &&& fits_at(b, sc)
            &&& abs(op.units()) + abs(inv.units()) + abs(fin.units()) + abs(opening.units()) + abs(
                closing.units(),
            ) <= b
            &&& op.spec_scale() <= sc
            &&& inv.spec_scale() <= sc
            &&& fin.spec_scale() <= sc
            &&& opening.spec_scale() <= sc
            &&& closing.spec_scale() <= sc
        }) ==> (r matches Some(t) && t.0.units() == op.units() + inv.units() + fin.units()
            && t.1.units() == closing.units() - opening.units() - t.0.units()),
{
    let ghost ok = {
        &&& fits_at(b, sc)
        &&& abs(op.units()) + abs(inv.units()) + abs(fin.units()) + abs(opening.units()) + abs(
            closing.units(),
        ) <= b
        &&& op.spec_scale() <= sc
        &&& inv.spec_scale() <= sc
        &&& fin.spec_scale() <= sc
        &&& opening.spec_scale() <= sc
        &&& closing.spec_scale() <= sc
    };
    proof {
        if ok {
            lemma_bounded_fits(op.units() + inv.units(), b, sc, max_nat(op.spec_scale(), inv.spec_scale()));
        }
    }
    let oi = dec_add(op, inv)?;
    proof {
        if ok {
            lemma_bounded_fits(oi.units() + fin.units(), b, sc, max_nat(oi.spec_scale(), fin.spec_scale()));
        }
    }
    let net = dec_add(oi, fin)?;
    proof {
        if ok {
            lemma_bounded_fits(closing.units() - opening.units(), b, sc, max_nat(closing.spec_scale(), opening.spec_scale()));
        }
    }
    let co = dec_sub(closing, opening)?;
    proof {
        if ok {
            lemma_bounded_fits(co.units() - net.units(), b, sc, max_nat(co.spec_scale(), net.spec_scale()));
        }
    }
    let fx = dec_sub(co, net)?;
    Some((net, fx))
}

} // verus!
