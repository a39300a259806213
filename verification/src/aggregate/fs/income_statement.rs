//! Consolidated income statement (statement of profit or loss).
//!
//! Accounts are classified by the number their code denotes:
//!
//! | Range       | Section                              |
//! |-------------|--------------------------------------|
//! | 4000–4499   | Revenue                              |
//! | 4500–4999   | Other income / expense               |
//! | 5000–5099   | Cost of goods sold                   |
//! | 5100–6999   | Operating expenses                   |
//! | 7000–7999   | Other income / expense               |
//! | 8000–8499   | Tax expense                          |
//!
//! Revenue and the other-income section are credit-positive
//! (`credit - debit`); cost of goods sold, operating expenses and tax are
//! debit-positive (`debit - credit`).  Then
//! `gross_profit = Σ revenue - Σ cogs`,
//! `operating_income = gross_profit - Σ opex`,
//! `net_income_before_tax = operating_income + Σ other`,
//! `net_income = net_income_before_tax - tax_expense`,
//! `net_income_to_nci = Σ nci share of profit` and
//! `net_income_to_owners = net_income - net_income_to_nci`.
use vstd::prelude::*;

use crate::aggregate::accounts::{
    abs_dc, accounts_abs_total, accounts_max_scale, accounts_sorted, lemma_abs_total_prefix,
    AggregatedAccount,
};
use crate::aggregate::nci::NciRollforward;
use crate::aggregate::pre_elim::AggregatedTb;
use crate::date::Date;
use crate::dec::{
    abs, dec_add, dec_sub, fits_at, lemma_bounded_fits, max_nat, Dec,
};
use crate::errors::GroupError;
use crate::labels::{label_map, label_or_code, lookup_label, pair_views};
use crate::text::{parse_u32, parse_u32_spec};

verus! {

/// Income-statement section of an account.
#[derive(Debug, Clone, Copy, PartialEq, Eq, Structural)]
pub enum IsSection {
    Revenue,
    Cogs,
    Opex,
    Other,
    Tax,
    Excluded,
}

/// Section of an account whose code denotes the number `n`.
pub open spec fn is_section_of_number(n: int) -> IsSection {
    if 4000 <= n <= 4499 {
        IsSection::Revenue
    } else if 4500 <= n <= 4999 {
        IsSection::Other
    } else if 5000 <= n <= 5099 {
        IsSection::Cogs
    } else if 5100 <= n <= 6999 {
        IsSection::Opex
    } else if 7000 <= n <= 7999 {
        IsSection::Other
    } else if 8000 <= n <= 8499 {
        IsSection::Tax
    } else {
        IsSection::Excluded
    }
}

/// Section of an account code; a code that is not a number is excluded.
pub open spec fn is_section_spec(code: Seq<char>) -> IsSection {
    match parse_u32_spec(code) {
        Some(n) => is_section_of_number(n as int),
        None => IsSection::Excluded,
    }
}

/// Classify an account code into its income-statement section.
pub fn classify_is_section(code: &str) -> (r: IsSection)
    ensures
        r == is_section_spec(code@),
{
    match parse_u32(code) {
        Some(n) => {
            if 4000 <= n && n <= 4499 {
                IsSection::Revenue
            } else if 4500 <= n && n <= 4999 {
                IsSection::Other
            } else if 5000 <= n && n <= 5099 {
                IsSection::Cogs
            } else if 5100 <= n && n <= 6999 {
                IsSection::Opex
            } else if 7000 <= n && n <= 7999 {
                IsSection::Other
            } else if 8000 <= n && n <= 8499 {
                IsSection::Tax
            } else {
                IsSection::Excluded
            }
        },
        None => IsSection::Excluded,
    }
}

/// The income statement's own label table, in insertion order.
pub open spec fn is_label_pairs() -> Seq<(Seq<char>, Seq<char>)> {
    seq![
        ("4000"@, "Product revenue"@),
        ("4010"@, "Sales discounts"@),
        ("4020"@, "Sales returns and allowances"@),
        ("4100"@, "Service revenue"@),
        ("4500"@, "IC revenue"@),
        ("4800"@, "Purchase discount income"@),
        ("4850"@, "Bargain purchase gain"@),
        ("4900"@, "Share of profit of associates"@),
        ("5000"@, "Cost of goods sold"@),
        ("5100"@, "Raw materials"@),
        ("5200"@, "Direct labor"@),
        ("5300"@, "Manufacturing overhead"@),
        ("6000"@, "Depreciation expense"@),
        ("6010"@, "Amortization expense"@),
        ("6100"@, "Salaries and wages"@),
        ("6200"@, "Benefits"@),
        ("6300"@, "Rent"@),
        ("6400"@, "Utilities"@),
        ("6500"@, "Office supplies"@),
        ("6600"@, "Travel and entertainment"@),
        ("6700"@, "Professional fees"@),
        ("6800"@, "Insurance"@),
        ("6850"@, "Provision expense"@),
        ("6900"@, "Bad debt expense"@),
        ("7100"@, "Interest expense"@),
        ("7400"@, "Purchase discounts"@),
        ("7500"@, "FX gain/loss"@),
        ("7510"@, "Hedge ineffectiveness"@),
        ("8000"@, "Tax expense"@),
        ("8100"@, "Deferred tax expense"@)
    ]
}

/// The income statement's label table.
pub fn account_name_dict() -> (r: Vec<(String, String)>)
    ensures
        pair_views(r@) == is_label_pairs(),
{
    let v: Vec<(String, String)> = vec![
        ("4000".to_string(), "Product revenue".to_string()),
        ("4010".to_string(), "Sales discounts".to_string()),
        ("4020".to_string(), "Sales returns and allowances".to_string()),
        ("4100".to_string(), "Service revenue".to_string()),
        ("4500".to_string(), "IC revenue".to_string()),
        ("4800".to_string(), "Purchase discount income".to_string()),
        ("4850".to_string(), "Bargain purchase gain".to_string()),
        ("4900".to_string(), "Share of profit of associates".to_string()),
        ("5000".to_string(), "Cost of goods sold".to_string()),
        ("5100".to_string(), "Raw materials".to_string()),
        ("5200".to_string(), "Direct labor".to_string()),
        ("5300".to_string(), "Manufacturing overhead".to_string()),
        ("6000".to_string(), "Depreciation expense".to_string()),
        ("6010".to_string(), "Amortization expense".to_string()),
        ("6100".to_string(), "Salaries and wages".to_string()),
        ("6200".to_string(), "Benefits".to_string()),
        ("6300".to_string(), "Rent".to_string()),
        ("6400".to_string(), "Utilities".to_string()),
        ("6500".to_string(), "Office supplies".to_string()),
        ("6600".to_string(), "Travel and entertainment".to_string()),
        ("6700".to_string(), "Professional fees".to_string()),
        ("6800".to_string(), "Insurance".to_string()),
        ("6850".to_string(), "Provision expense".to_string()),
        ("6900".to_string(), "Bad debt expense".to_string()),
        ("7100".to_string(), "Interest expense".to_string()),
        ("7400".to_string(), "Purchase discounts".to_string()),
        ("7500".to_string(), "FX gain/loss".to_string()),
        ("7510".to_string(), "Hedge ineffectiveness".to_string()),
        ("8000".to_string(), "Tax expense".to_string()),
        ("8100".to_string(), "Deferred tax expense".to_string())
    ];
    assert(pair_views(v@) =~= is_label_pairs());
    v
}

/// The income-statement label of `code`, or the code itself.
pub fn account_name_for(code: &str) -> (r: String)
    ensures
        r@ == label_or_code(label_map(is_label_pairs()), code@),
{
    let dict = account_name_dict();
    lookup_label(&dict, code)
}

/// One income-statement line.
#[derive(Debug, Clone)]
pub struct IsLine {
    pub account_code: String,
    pub account_name: String,
    /// Revenue / COGS / opex / tax lines carry their natural-balance sign;
    /// other-income lines carry their contribution to net income.
    pub amount: Dec,
}

/// Consolidated income statement.
#[derive(Debug, Clone)]
pub struct ConsolidatedIncomeStatement {
    pub group_id: String,
    pub period_end: Date,
    pub currency: String,
    pub revenue: Vec<IsLine>,
    pub cost_of_goods_sold: Vec<IsLine>,
    pub gross_profit: Dec,
    pub operating_expenses: Vec<IsLine>,
    pub operating_income: Dec,
    pub other_income_expense: Vec<IsLine>,
    pub net_income_before_tax: Dec,
    pub tax_expense: Dec,
    pub net_income: Dec,
    pub net_income_to_owners: Dec,
    pub net_income_to_nci: Dec,
}

/// Amount an account contributes to its section, in units.
pub open spec fn is_amount(a: AggregatedAccount) -> int {
    match is_section_spec(a.account_code@) {
        IsSection::Revenue | IsSection::Other => a.credit_total.units() - a.debit_total.units(),
        _ => a.debit_total.units() - a.credit_total.units(),
    }
}

/// The line an account gives: code, label, amount.
pub open spec fn is_line_of(a: AggregatedAccount) -> (Seq<char>, Seq<char>, int) {
    (a.account_code@, label_or_code(label_map(is_label_pairs()), a.account_code@), is_amount(a))
}

/// The lines of section `sec`, in account order.
pub open spec fn section_lines(s: Seq<AggregatedAccount>, sec: IsSection) -> Seq<
    (Seq<char>, Seq<char>, int),
>
    decreases s.len(),
{
    if s.len() == 0 {
        Seq::empty()
    } else if is_section_spec(s.last().account_code@) == sec {
        section_lines(s.drop_last(), sec).push(is_line_of(s.last()))
    } else {
        section_lines(s.drop_last(), sec)
    }
}

/// Sum of the amounts of section `sec`.
pub open spec fn section_total(s: Seq<AggregatedAccount>, sec: IsSection) -> int
    decreases s.len(),
{
    if s.len() == 0 {
        0
    } else if is_section_spec(s.last().account_code@) == sec {
        section_total(s.drop_last(), sec) + is_amount(s.last())
    } else {
        section_total(s.drop_last(), sec)
    }
}

/// The views of statement lines: code, label, amount in units.
pub open spec fn is_line_views(v: Seq<IsLine>) -> Seq<(Seq<char>, Seq<char>, int)> {
    v.map_values(|l: IsLine| (l.account_code@, l.account_name@, l.amount.units()))
}

/// Sum of the amounts of a list of line views.
pub open spec fn views_total(v: Seq<(Seq<char>, Seq<char>, int)>) -> int
    decreases v.len(),
{
    if v.len() == 0 {
        0
    } else {
        views_total(v.drop_last()) + v.last().2
    }
}

/// The total of a section's lines is the section total.
pub proof fn lemma_section_lines_total(s: Seq<AggregatedAccount>, sec: IsSection)
    ensures
        views_total(section_lines(s, sec)) == section_total(s, sec),
    decreases s.len(),
{
    if s.len() > 0 {
        lemma_section_lines_total(s.drop_last(), sec);
        if is_section_spec(s.last().account_code@) == sec {
            assert(section_lines(s, sec).drop_last() =~= section_lines(s.drop_last(), sec));
        }
    }
}

/// Sum of the NCI shares of profit.
pub open spec fn nci_profit_total(s: Seq<NciRollforward>) -> int
    decreases s.len(),
{
    if s.len() == 0 {
        0
    } else {
        nci_profit_total(s.drop_last()) + s.last().nci_share_of_profit.units()
    }
}

/// Sum of the magnitudes of the NCI shares of profit.
pub open spec fn nci_abs_total(s: Seq<NciRollforward>) -> int
    decreases s.len(),
{
    if s.len() == 0 {
        0
    } else {
        nci_abs_total(s.drop_last()) + abs(s.last().nci_share_of_profit.units())
    }
}

/// Largest scale among the NCI shares of profit.
pub open spec fn nci_max_scale(s: Seq<NciRollforward>) -> nat
    decreases s.len(),
{
    if s.len() == 0 {
        0
    } else {
        max_nat(nci_max_scale(s.drop_last()), s.last().nci_share_of_profit.spec_scale())
    }
}

proof fn lemma_nci_prefix(s: Seq<NciRollforward>, i: int)
    requires
        0 <= i <= s.len(),
    ensures
        0 <= nci_abs_total(s.take(i)) <= nci_abs_total(s),
        i < s.len() ==> nci_abs_total(s.take(i + 1)) == nci_abs_total(s.take(i)) + abs(
            s[i].nci_share_of_profit.units(),
        ),
        i < s.len() ==> nci_profit_total(s.take(i + 1)) == nci_profit_total(s.take(i))
            + s[i].nci_share_of_profit.units(),
        i < s.len() ==> s[i].nci_share_of_profit.spec_scale() <= nci_max_scale(s),
    decreases s.len(),
{
    if i < s.len() {
        assert(s.take(i + 1).drop_last() =~= s.take(i));
        assert(s.take(i + 1).last() == s[i]);
    }
    if s.len() == 0 {
        assert(s.take(i) =~= s);
    } else if i == s.len() {
        assert(s.take(i) =~= s);
        lemma_nci_prefix(s.drop_last(), 0);
    } else {
        lemma_nci_prefix(s.drop_last(), i);
        assert(s.drop_last().take(i) =~= s.take(i));
        if i < s.len() - 1 {
            assert(s.drop_last()[i] == s[i]);
        }
    }
}

/// Every sum the statement computes is exact: the magnitudes of all
/// debits, credits and NCI shares together fit at the largest scale among
/// them.
pub open spec fn is_fits(tb: AggregatedTb, nci: Seq<NciRollforward>) -> bool {
    fits_at(
        accounts_abs_total(tb.account_totals@) + nci_abs_total(nci),
        max_nat(accounts_max_scale(tb.account_totals@), nci_max_scale(nci)),
    )
}

/// The statement's lines are the classified accounts of `tb`, in code
/// order, labelled from the income statement's table.
pub open spec fn is_lines_match(st: ConsolidatedIncomeStatement, s: Seq<AggregatedAccount>) -> bool {
    &&& is_line_views(st.revenue@) == section_lines(s, IsSection::Revenue)
    &&& is_line_views(st.cost_of_goods_sold@) == section_lines(s, IsSection::Cogs)
    &&& is_line_views(st.operating_expenses@) == section_lines(s, IsSection::Opex)
    &&& is_line_views(st.other_income_expense@) == section_lines(s, IsSection::Other)
}

/// The statement's aggregates follow from the section totals and the NCI
/// shares.
pub open spec fn is_totals_match(
    st: ConsolidatedIncomeStatement,
    s: Seq<AggregatedAccount>,
    nci: Seq<NciRollforward>,
) -> bool {
    &&& st.tax_expense.units() == section_total(s, IsSection::Tax)
    &&& st.gross_profit.units() == section_total(s, IsSection::Revenue) - section_total(
        s,
        IsSection::Cogs,
    )
    &&& st.operating_income.units() == st.gross_profit.units() - section_total(s, IsSection::Opex)
    &&& st.net_income_before_tax.units() == st.operating_income.units() + section_total(
        s,
        IsSection::Other,
    )
    &&& st.net_income.units() == st.net_income_before_tax.units() - st.tax_expense.units()
    &&& st.net_income_to_nci.units() == nci_profit_total(nci)
    &&& st.net_income_to_owners.units() == st.net_income.units() - st.net_income_to_nci.units()
}

fn overflow() -> (r: GroupError)
    ensures
        r matches GroupError::Aggregate(m) && m@ == "income statement: a decimal sum overflows"@,
{
    GroupError::Aggregate("income statement: a decimal sum overflows".to_string())
}

/// Build the consolidated income statement from a post-elimination trial
/// balance (accounts in code order) and the NCI rollforwards of the
/// period.  `Err` only when `rust_decimal` reports an overflow, which
/// [`is_fits`] rules out.
#[verifier::rlimit(100)]
#[verifier::spinoff_prover]
pub fn build_consolidated_income_statement(
    post_elim_tb: &AggregatedTb,
    nci_rollforwards: &[NciRollforward],
    group_id: &str,
    period_end: Date,
) -> (r: Result<ConsolidatedIncomeStatement, GroupError>)
    ensures
        is_fits(*post_elim_tb, nci_rollforwards@) ==> r is Ok,
        r matches Ok(st) ==> {
            &&& st.group_id@ == group_id@
            &&& st.period_end == period_end
            &&& st.currency@ == post_elim_tb.currency@
            &&& is_fits(*post_elim_tb, nci_rollforwards@) ==> is_lines_match(
                st,
                post_elim_tb.account_totals@,
            )
            &&& is_fits(*post_elim_tb, nci_rollforwards@) ==> is_totals_match(
                st,
                post_elim_tb.account_totals@,
                nci_rollforwards@,
            )
        },
{
    let accts = &post_elim_tb.account_totals;
    let ghost s = accts@;
    let ghost nci = nci_rollforwards@;
    let ghost fits = is_fits(*post_elim_tb, nci);
    let ghost bound = accounts_abs_total(s) + nci_abs_total(nci);
    let ghost sc = max_nat(accounts_max_scale(s), nci_max_scale(nci));
    proof {
        lemma_abs_total_prefix(s, 0);
        lemma_nci_prefix(nci, 0);
    }
    let dict = account_name_dict();
    let mut revenue: Vec<IsLine> = Vec::new();
    let mut cogs: Vec<IsLine> = Vec::new();
    let mut opex: Vec<IsLine> = Vec::new();
    let mut other: Vec<IsLine> = Vec::new();
    let mut rev_sum = Dec::zero();
    let mut cogs_sum = Dec::zero();
    let mut opex_sum = Dec::zero();
    let mut other_sum = Dec::zero();
    let mut tax_sum = Dec::zero();
    let mut i: usize = 0;
    while i < accts.len()
        invariant
            i <= s.len(),
            s == accts@,
            nci == nci_rollforwards@,
            pair_views(dict@) == is_label_pairs(),
            fits == is_fits(*post_elim_tb, nci),
            bound == accounts_abs_total(s) + nci_abs_total(nci),
            sc == max_nat(accounts_max_scale(s), nci_max_scale(nci)),
            fits ==> fits_at(bound, sc),
            0 <= nci_abs_total(nci),
            fits ==> {
                &&& is_line_views(revenue@) == section_lines(s.take(i as int), IsSection::Revenue)
                &&& is_line_views(cogs@) == section_lines(s.take(i as int), IsSection::Cogs)
                &&& is_line_views(opex@) == section_lines(s.take(i as int), IsSection::Opex)
                &&& is_line_views(other@) == section_lines(s.take(i as int), IsSection::Other)
                &&& rev_sum.units() == section_total(s.take(i as int), IsSection::Revenue)
                &&& cogs_sum.units() == section_total(s.take(i as int), IsSection::Cogs)
                &&& opex_sum.units() == section_total(s.take(i as int), IsSection::Opex)
                &&& other_sum.units() == section_total(s.take(i as int), IsSection::Other)
                &&& tax_sum.units() == section_total(s.take(i as int), IsSection::Tax)
                &&& abs(rev_sum.units()) + abs(cogs_sum.units()) + abs(opex_sum.units()) + abs(
                    other_sum.units(),
                ) + abs(tax_sum.units()) <= accounts_abs_total(s.take(i as int))
                &&& rev_sum.spec_scale() <= sc
                &&& cogs_sum.spec_scale() <= sc
                &&& opex_sum.spec_scale() <= sc
                &&& other_sum.spec_scale() <= sc
                &&& tax_sum.spec_scale() <= sc
            },
        decreases accts.len() - i,
    {
        proof {
            lemma_abs_total_prefix(s, i as int);
            lemma_abs_total_prefix(s, i + 1);
            assert(s.take(i + 1).drop_last() =~= s.take(i as int));
            assert(s.take(i + 1).last() == s[i as int]);
        }
        let a = &accts[i];
        let sec = classify_is_section(a.account_code.as_str());
        if sec != IsSection::Excluded {
            let credit_side = sec == IsSection::Revenue || sec == IsSection::Other;
            proof {
                if fits {
                    let d = a.debit_total;
                    let c = a.credit_total;
                    assert(abs(c.units() - d.units()) <= abs_dc(*a));
                    assert(abs(d.units() - c.units()) <= abs_dc(*a));
                    lemma_bounded_fits(c.units() - d.units(), bound, sc, max_nat(c.spec_scale(), d.spec_scale()));
                    lemma_bounded_fits(d.units() - c.units(), bound, sc, max_nat(d.spec_scale(), c.spec_scale()));
                }
            }
            let amount = if credit_side {
                dec_sub(a.credit_total, a.debit_total)
            } else {
                dec_sub(a.debit_total, a.credit_total)
            };
            let amount = match amount {
                Some(x) => x,
                None => {
                    return Err(overflow());
                },
            };
            let name = lookup_label(&dict, a.account_code.as_str());
            let line = IsLine { account_code: a.account_code.clone(), account_name: name, amount };
            let ghost line_view = (line.account_code@, line.account_name@, line.amount.units());
            proof {
                if fits {
                    assert(line_view == is_line_of(s[i as int]));
                    assert(abs(amount.units()) <= abs_dc(s[i as int]));
                }
            }
            if sec == IsSection::Revenue {
                proof {
                    if fits {
                        lemma_bounded_fits(rev_sum.units() + amount.units(), bound, sc, max_nat(rev_sum.spec_scale(), amount.spec_scale()));
                    }
                }
                rev_sum = match dec_add(rev_sum, amount) {
                    Some(x) => x,
                    None => {
                        return Err(overflow());
                    },
                };
                let ghost before = revenue@;
                revenue.push(line);
                proof {
                    assert(is_line_views(revenue@) =~= is_line_views(before).push(line_view));
                }
            } else if sec == IsSection::Cogs {
                proof {
                    if fits {
                        lemma_bounded_fits(cogs_sum.units() + amount.units(), bound, sc, max_nat(cogs_sum.spec_scale(), amount.spec_scale()));
                    }
                }
                cogs_sum = match dec_add(cogs_sum, amount) {
                    Some(x) => x,
                    None => {
                        return Err(overflow());
                    },
                };
                let ghost before = cogs@;
                cogs.push(line);
                proof {
                    assert(is_line_views(cogs@) =~= is_line_views(before).push(line_view));
                }
            } else if sec == IsSection::Opex {
                proof {
                    if fits {
                        lemma_bounded_fits(opex_sum.units() + amount.units(), bound, sc, max_nat(opex_sum.spec_scale(), amount.spec_scale()));
                    }
                }
                opex_sum = match dec_add(opex_sum, amount) {
                    Some(x) => x,
                    None => {
                        return Err(overflow());
                    },
                };
                let ghost before = opex@;
                opex.push(line);
                proof {
                    assert(is_line_views(opex@) =~= is_line_views(before).push(line_view));
                }
            } else if sec == IsSection::Other {
                proof {
                    if fits {
                        lemma_bounded_fits(other_sum.units() + amount.units(), bound, sc, max_nat(other_sum.spec_scale(), amount.spec_scale()));
                    }
                }
                other_sum = match dec_add(other_sum, amount) {
                    Some(x) => x,
                    None => {
                        return Err(overflow());
                    },
                };
                let ghost before = other@;
                other.push(line);
                proof {
                    assert(is_line_views(other@) =~= is_line_views(before).push(line_view));
                }
            } else {
                proof {
                    if fits {
                        lemma_bounded_fits(tax_sum.units() + amount.units(), bound, sc, max_nat(tax_sum.spec_scale(), amount.spec_scale()));
                    }
                }
                tax_sum = match dec_add(tax_sum, amount) {
                    Some(x) => x,
                    None => {
                        return Err(overflow());
                    },
                };
            }
        }
        i = i + 1;
    }
    proof {
        assert(s.take(i as int) =~= s);
        if fits {
            lemma_bounded_fits(rev_sum.units() - cogs_sum.units(), bound, sc, max_nat(rev_sum.spec_scale(), cogs_sum.spec_scale()));
        }
    }
    let gross_profit = match dec_sub(rev_sum, cogs_sum) {
        Some(x) => x,
        None => {
            return Err(overflow());
        },
    };
    proof {
        if fits {
            lemma_bounded_fits(gross_profit.units() - opex_sum.units(), bound, sc, max_nat(gross_profit.spec_scale(), opex_sum.spec_scale()));
        }
    }
    let operating_income = match dec_sub(gross_profit, opex_sum) {
        Some(x) => x,
        None => {
            return Err(overflow());
        },
    };
    proof {
        if fits {
            lemma_bounded_fits(operating_income.units() + other_sum.units(), bound, sc, max_nat(operating_income.spec_scale(), other_sum.spec_scale()));
        }
    }
    let net_income_before_tax = match dec_add(operating_income, other_sum) {
        Some(x) => x,
        None => {
            return Err(overflow());
        },
    };
    proof {
        if fits {
            lemma_bounded_fits(net_income_before_tax.units() - tax_sum.units(), bound, sc, max_nat(net_income_before_tax.spec_scale(), tax_sum.spec_scale()));
        }
    }
    let net_income = match dec_sub(net_income_before_tax, tax_sum) {
        Some(x) => x,
        None => {
            return Err(overflow());
        },
    };
    let mut nci_sum = Dec::zero();
    let mut j: usize = 0;
    while j < nci_rollforwards.len()
        invariant
            j <= nci.len(),
            nci == nci_rollforwards@,
            fits == is_fits(*post_elim_tb, nci),
            bound == accounts_abs_total(s) + nci_abs_total(nci),
            sc == max_nat(accounts_max_scale(s), nci_max_scale(nci)),
            fits ==> fits_at(bound, sc),
            0 <= accounts_abs_total(s),
            fits ==> {
                &&& nci_sum.units() == nci_profit_total(nci.take(j as int))
                &&& abs(nci_sum.units()) <= nci_abs_total(nci.take(j as int))
                &&& nci_sum.spec_scale() <= sc
            },
        decreases nci_rollforwards.len() - j,
    {
        proof {
            lemma_nci_prefix(nci, j as int);
            lemma_nci_prefix(nci, j + 1);
            if fits {
                lemma_bounded_fits(
                    nci_sum.units() + nci[j as int].nci_share_of_profit.units(),
                    bound,
                    sc,
                    max_nat(nci_sum.spec_scale(), nci[j as int].nci_share_of_profit.spec_scale()),
                );
            }
        }
        nci_sum = match dec_add(nci_sum, nci_rollforwards[j].nci_share_of_profit) {
            Some(x) => x,
            None => {
                return Err(overflow());
            },
        };
        j = j + 1;
    }
    proof {
        assert(nci.take(j as int) =~= nci);
        if fits {
            lemma_bounded_fits(net_income.units() - nci_sum.units(), bound, sc, max_nat(net_income.spec_scale(), nci_sum.spec_scale()));
        }
    }
    let net_income_to_owners = match dec_sub(net_income, nci_sum) {
        Some(x) => x,
        None => {
            return Err(overflow());
        },
    };
    Ok(ConsolidatedIncomeStatement {
        group_id: group_id.to_string(),
        period_end,
        currency: post_elim_tb.currency.clone(),
        revenue,
        cost_of_goods_sold: cogs,
        gross_profit,
        operating_expenses: opex,
        operating_income,
        other_income_expense: other,
        net_income_before_tax,
        tax_expense: tax_sum,
        net_income,
        net_income_to_owners,
        net_income_to_nci: nci_sum,
    })
}

/// The aggregates of a built statement are sums of its own lines:
/// `gross_profit = Σ revenue - Σ cogs`, `operating_income = gross_profit
/// - Σ opex`, `net_income_before_tax = operating_income + Σ other`.
pub proof fn lemma_is_aggregates_from_lines(
    st: ConsolidatedIncomeStatement,
    s: Seq<AggregatedAccount>,
    nci: Seq<NciRollforward>,
)
    requires
        is_lines_match(st, s),
        is_totals_match(st, s, nci),
    ensures
        st.gross_profit.units() == views_total(is_line_views(st.revenue@)) - views_total(
            is_line_views(st.cost_of_goods_sold@),
        ),
        st.operating_income.units() == st.gross_profit.units() - views_total(
            is_line_views(st.operating_expenses@),
        ),
        st.net_income_before_tax.units() == st.operating_income.units() + views_total(
            is_line_views(st.other_income_expense@),
        ),
        st.net_income_to_owners.units() + st.net_income_to_nci.units() == st.net_income.units(),
{
    lemma_section_lines_total(s, IsSection::Revenue);
    lemma_section_lines_total(s, IsSection::Cogs);
    lemma_section_lines_total(s, IsSection::Opex);
    lemma_section_lines_total(s, IsSection::Other);
}


} // verus!
