//! Consolidated balance sheet.
//!
//! Every account is classified into a balance-sheet section by its
//! framework-aware account type, refined by its code:
//!
//! - assets: non-current when the code starts with `0` (SKR fixed
//!   assets), denotes 1500–1999 (US / IFRS), or starts with `2` and
//!   denotes 200000–999999 (PCG fixed assets); current otherwise;
//! - liabilities: non-current for 2300–2999, current otherwise;
//! - equity: NCI for 3500–3599, equity otherwise;
//! - revenue and expense accounts are excluded.
//!
//! Assets are debit-positive (`debit - credit`); liabilities, equity and
//! NCI are credit-positive (`credit - debit`).  Then
//! `total_assets = Σ current + Σ non-current assets`,
//! `total_liabilities = Σ current + Σ non-current liabilities`,
//! `total_equity = Σ equity`, `total_nci = Σ nci` and
//! `total_liabilities_plus_equity_plus_nci = total_liabilities +
//! total_equity + total_nci`.  The two sides must agree within 0.01
//! (IAS 1.54); a larger gap is an error naming both totals and the
//! difference.
use vstd::prelude::*;

use crate::aggregate::accounts::{
    abs_dc, accounts_abs_total, accounts_max_scale, accounts_sorted, lemma_abs_total_prefix, AccountType,
    AggregatedAccount,
};
use crate::text::seq_lt;
use crate::aggregate::fs::account_names::AccountNameDictionary;
use crate::aggregate::pre_elim::AggregatedTb;
use crate::date::Date;
use crate::dec::{abs, dec_add, dec_lt, dec_sub, dec_to_str, decimal_text, fits_at, lemma_bounded_fits, max_nat, pow10, Dec};
use vstd::string::*;
use crate::errors::GroupError;
use crate::labels::label_or_code;
use crate::text::{parse_u32, parse_u32_spec};
use vstd::string::*;

verus! {

/// Balance-sheet section of an account.
#[derive(Debug, Clone, Copy, PartialEq, Eq, Structural)]
pub enum BsSection {
    CurrentAsset,
    NonCurrentAsset,
    CurrentLiability,
    NonCurrentLiability,
    Equity,
    Nci,
    Excluded,
}

/// The number a code denotes lies in `[lo, hi]`.
pub open spec fn code_in(code: Seq<char>, lo: int, hi: int) -> bool {
    parse_u32_spec(code) matches Some(v) && lo <= v <= hi
}

/// Section of an account with code `code` and type `t`.
pub open spec fn bs_section_spec(code: Seq<char>, t: AccountType) -> BsSection {
    match t {
        AccountType::Asset | AccountType::ContraAsset => {
            if (code.len() > 0 && code[0] == '0') || code_in(code, 1500, 1999) || (code.len() > 0
                && code[0] == '2' && code_in(code, 200000, 999999)) {
                BsSection::NonCurrentAsset
            } else {
                BsSection::CurrentAsset
            }
        },
        AccountType::Liability | AccountType::ContraLiability => {
            if code_in(code, 2300, 2999) {
                BsSection::NonCurrentLiability
            } else {
                BsSection::CurrentLiability
            }
        },
        AccountType::Equity | AccountType::ContraEquity => {
            if code_in(code, 3500, 3599) {
                BsSection::Nci
            } else {
                BsSection::Equity
            }
        },
        AccountType::Revenue | AccountType::Expense => BsSection::Excluded,
    }
}

/// Classify an account into its balance-sheet section from its type and
/// code.
pub fn classify_bs_section_from_account(code: &str, account: &AggregatedAccount) -> (r: BsSection)
    ensures
        r == bs_section_spec(code@, account.account_type),
{
    let n = parse_u32(code);
    let starts_with_0 = code.unicode_len() > 0 && code.get_char(0) == '0';
    let starts_with_2 = code.unicode_len() > 0 && code.get_char(0) == '2';
    let in_range = |lo: u32, hi: u32| -> (b: bool)
        ensures
            b == (n matches Some(v) && lo <= v <= hi),
        {
            match n {
                Some(v) => lo <= v && v <= hi,
                None => false,
            }
        };
    match account.account_type {
        AccountType::Asset | AccountType::ContraAsset => {
            if starts_with_0 || in_range(1500, 1999) || (starts_with_2 && in_range(200000, 999999)) {
                BsSection::NonCurrentAsset
            } else {
                BsSection::CurrentAsset
            }
        },
        AccountType::Liability | AccountType::ContraLiability => {
            if in_range(2300, 2999) {
                BsSection::NonCurrentLiability
            } else {
                BsSection::CurrentLiability
            }
        },
        AccountType::Equity | AccountType::ContraEquity => {
            if in_range(3500, 3599) {
                BsSection::Nci
            } else {
                BsSection::Equity
            }
        },
        AccountType::Revenue | AccountType::Expense => BsSection::Excluded,
    }
}

/// One balance-sheet line.
#[derive(Debug, Clone)]
pub struct BsLine {
    pub account_code: String,
    pub account_name: String,
    /// Positive when the balance sits on its natural side.
    pub amount: Dec,
}

/// Consolidated balance sheet, NCI presented separately.
#[derive(Debug, Clone)]
pub struct ConsolidatedBalanceSheet {
    pub group_id: String,
    pub as_of_date: Date,
    pub currency: String,
    pub current_assets: Vec<BsLine>,
    pub non_current_assets: Vec<BsLine>,
    pub current_liabilities: Vec<BsLine>,
    pub non_current_liabilities: Vec<BsLine>,
    pub equity: Vec<BsLine>,
    pub nci: Vec<BsLine>,
    pub total_assets: Dec,
    pub total_liabilities: Dec,
    pub total_equity: Dec,
    pub total_nci: Dec,
    pub total_liabilities_plus_equity_plus_nci: Dec,
}

/// Section of an account.
pub open spec fn bs_section_of(a: AggregatedAccount) -> BsSection {
    bs_section_spec(a.account_code@, a.account_type)
}

/// Amount an account shows on the balance sheet, in units.
pub open spec fn bs_amount(a: AggregatedAccount) -> int {
    match bs_section_of(a) {
        BsSection::CurrentAsset | BsSection::NonCurrentAsset => a.debit_total.units()
            - a.credit_total.units(),
        _ => a.credit_total.units() - a.debit_total.units(),
    }
}

/// The lines of section `sec`, in account order, labelled from `names`.
pub open spec fn bs_section_lines(
    s: Seq<AggregatedAccount>,
    sec: BsSection,
    names: Map<Seq<char>, Seq<char>>,
) -> Seq<(Seq<char>, Seq<char>, int)>
    decreases s.len(),
{
    if s.len() == 0 {
        Seq::empty()
    } else if bs_section_of(s.last()) == sec {
        bs_section_lines(s.drop_last(), sec, names).push(
            (
                s.last().account_code@,
                label_or_code(names, s.last().account_code@),
                bs_amount(s.last()),
            ),
        )
    } else {
        bs_section_lines(s.drop_last(), sec, names)
    }
}

/// Sum of the amounts of section `sec`.
pub open spec fn bs_section_total(s: Seq<AggregatedAccount>, sec: BsSection) -> int
    decreases s.len(),
{
    if s.len() == 0 {
        0
    } else if bs_section_of(s.last()) == sec {
        bs_section_total(s.drop_last(), sec) + bs_amount(s.last())
    } else {
        bs_section_total(s.drop_last(), sec)
    }
}

/// The views of balance-sheet lines: code, label, amount in units.
pub open spec fn bs_line_views(v: Seq<BsLine>) -> Seq<(Seq<char>, Seq<char>, int)> {
    v.map_values(|l: BsLine| (l.account_code@, l.account_name@, l.amount.units()))
}

/// The lines are in strictly ascending order of account code.
pub open spec fn lines_ascending(v: Seq<BsLine>) -> bool {
    forall|i: int, j: int| 0 <= i < j < v.len() ==> seq_lt(#[trigger] v[i].account_code@, #[trigger] v[j].account_code@)
}

/// Every section of the statement is in ascending account order.
pub open spec fn sections_ascending(bs: ConsolidatedBalanceSheet) -> bool {
    &&& lines_ascending(bs.current_assets@)
    &&& lines_ascending(bs.non_current_assets@)
    &&& lines_ascending(bs.current_liabilities@)
    &&& lines_ascending(bs.non_current_liabilities@)
    &&& lines_ascending(bs.equity@)
    &&& lines_ascending(bs.nci@)
}

proof fn lemma_section_lines_sorted(s: Seq<AggregatedAccount>, sec: BsSection, names: Map<Seq<char>, Seq<char>>)
    requires
        accounts_sorted(s),
    ensures
        forall|i: int, j: int|
            0 <= i < j < bs_section_lines(s, sec, names).len() ==> seq_lt(
                #[trigger] bs_section_lines(s, sec, names)[i].0,
                #[trigger] bs_section_lines(s, sec, names)[j].0,
            ),
        forall|i: int|
            0 <= i < bs_section_lines(s, sec, names).len() ==> exists|k: int|
                0 <= k < s.len() && #[trigger] s[k].account_code@ == (#[trigger] bs_section_lines(s, sec, names)[i]).0,
    decreases s.len(),
{
    if s.len() > 0 {
        let t = s.drop_last();
        assert(accounts_sorted(t)) by {
            assert forall|i: int, j: int| 0 <= i < j < t.len() implies seq_lt(#[trigger] t[i].account_code@, #[trigger] t[j].account_code@) by {
                assert(t[i] == s[i] && t[j] == s[j]);
            }
        }
        lemma_section_lines_sorted(t, sec, names);
        let prev = bs_section_lines(t, sec, names);
        let cur = bs_section_lines(s, sec, names);
        assert forall|i: int| 0 <= i < prev.len() implies seq_lt(#[trigger] prev[i].0, s.last().account_code@) by {
            let k = choose|k: int| 0 <= k < t.len() && #[trigger] t[k].account_code@ == prev[i].0;
            assert(t[k] == s[k]);
            assert(seq_lt(s[k].account_code@, s[s.len() - 1].account_code@));
        }
        assert forall|i: int| 0 <= i < cur.len() implies exists|k: int|
            0 <= k < s.len() && #[trigger] s[k].account_code@ == (#[trigger] cur[i]).0 by {
            if i < prev.len() {
                assert(cur[i] == prev[i]);
                let k = choose|k: int| 0 <= k < t.len() && #[trigger] t[k].account_code@ == prev[i].0;
                assert(t[k] == s[k]);
            } else {
                assert(s[s.len() - 1].account_code@ == cur[i].0);
            }
        }
        assert forall|i: int, j: int| 0 <= i < j < cur.len() implies seq_lt(#[trigger] cur[i].0, #[trigger] cur[j].0) by {
            if j < prev.len() {
                assert(cur[i] == prev[i] && cur[j] == prev[j]);
            } else {
                assert(cur[i] == prev[i]);
                assert(seq_lt(prev[i].0, s.last().account_code@));
            }
        }
    }
}

proof fn lemma_lines_ascending(v: Seq<BsLine>, s: Seq<AggregatedAccount>, sec: BsSection, names: Map<Seq<char>, Seq<char>>)
    requires
        accounts_sorted(s),
        bs_line_views(v) == bs_section_lines(s, sec, names),
    ensures
        lines_ascending(v),
{
    lemma_section_lines_sorted(s, sec, names);
    assert forall|i: int, j: int| 0 <= i < j < v.len() implies seq_lt(#[trigger] v[i].account_code@, #[trigger] v[j].account_code@) by {
        assert(bs_line_views(v)[i].0 == v[i].account_code@);
        assert(bs_line_views(v)[j].0 == v[j].account_code@);
    }
}

/// A statement built from accounts in ascending order has every section
/// in ascending order.
proof fn lemma_sections_ascending(bs: ConsolidatedBalanceSheet, s: Seq<AggregatedAccount>, names: Map<Seq<char>, Seq<char>>)
    requires
        accounts_sorted(s),
        bs_matches(bs, s, names),
    ensures
        sections_ascending(bs),
{
    lemma_lines_ascending(bs.current_assets@, s, BsSection::CurrentAsset, names);
    lemma_lines_ascending(bs.non_current_assets@, s, BsSection::NonCurrentAsset, names);
    lemma_lines_ascending(bs.current_liabilities@, s, BsSection::CurrentLiability, names);
    lemma_lines_ascending(bs.non_current_liabilities@, s, BsSection::NonCurrentLiability, names);
    lemma_lines_ascending(bs.equity@, s, BsSection::Equity, names);
    lemma_lines_ascending(bs.nci@, s, BsSection::Nci, names);
}

/// Every sum the statement computes is exact.
pub open spec fn bs_fits(tb: AggregatedTb) -> bool {
    fits_at(accounts_abs_total(tb.account_totals@), accounts_max_scale(tb.account_totals@))
}

/// The balance sheet shows the classified accounts of `s`, labelled from
/// `names`, with totals summing its sections.
pub open spec fn bs_matches(
    bs: ConsolidatedBalanceSheet,
    s: Seq<AggregatedAccount>,
    names: Map<Seq<char>, Seq<char>>,
) -> bool {
    &&& bs_line_views(bs.current_assets@) == bs_section_lines(s, BsSection::CurrentAsset, names)
    &&& bs_line_views(bs.non_current_assets@) == bs_section_lines(
        s,
        BsSection::NonCurrentAsset,
        names,
    )
    &&& bs_line_views(bs.current_liabilities@) == bs_section_lines(
        s,
        BsSection::CurrentLiability,
        names,
    )
    &&& bs_line_views(bs.non_current_liabilities@) == bs_section_lines(
        s,
        BsSection::NonCurrentLiability,
        names,
    )
    &&& bs_line_views(bs.equity@) == bs_section_lines(s, BsSection::Equity, names)
    &&& bs_line_views(bs.nci@) == bs_section_lines(s, BsSection::Nci, names)
    &&& bs.total_assets.units() == bs_section_total(s, BsSection::CurrentAsset)
        + bs_section_total(s, BsSection::NonCurrentAsset)
    &&& bs.total_liabilities.units() == bs_section_total(s, BsSection::CurrentLiability)
        + bs_section_total(s, BsSection::NonCurrentLiability)
    &&& bs.total_equity.units() == bs_section_total(s, BsSection::Equity)
    &&& bs.total_nci.units() == bs_section_total(s, BsSection::Nci)
    &&& bs.total_liabilities_plus_equity_plus_nci.units() == bs.total_liabilities.units()
        + bs.total_equity.units() + bs.total_nci.units()
}

/// Total assets less liabilities, equity and NCI of the classified
/// accounts, in units.
pub open spec fn bs_gap(s: Seq<AggregatedAccount>) -> int {
    bs_section_total(s, BsSection::CurrentAsset) + bs_section_total(s, BsSection::NonCurrentAsset) - (
    bs_section_total(s, BsSection::CurrentLiability) + bs_section_total(s, BsSection::NonCurrentLiability)
        + bs_section_total(s, BsSection::Equity) + bs_section_total(s, BsSection::Nci))
}

/// The sides agree within 0.01.
pub open spec fn bs_balanced(s: Seq<AggregatedAccount>) -> bool {
    abs(bs_gap(s)) <= pow10(26)
}

/// The message of an unbalanced sheet: both totals and the difference.
pub open spec fn imbalance_text(a: Dec, l: Dec, d: Dec) -> Seq<char> {
    "build_consolidated_balance_sheet: total_assets "@ + decimal_text(a)
        + " != total_liabilities + total_equity + total_nci "@ + decimal_text(l) + " (diff "@ + decimal_text(d) + ")"@
}

/// `m` is the message of a sheet whose assets are `a` and whose other side
/// is `l`, in units.
pub open spec fn is_imbalance_message(m: Seq<char>, a: int, l: int) -> bool {
    exists|x: Dec, y: Dec, d: Dec| x.units() == a && y.units() == l && d.units() == a - l && m == #[trigger] imbalance_text(x, y, d)
}

fn overflow() -> (r: GroupError)
    ensures
        r matches GroupError::Aggregate(m) && m@ == "balance sheet: a decimal sum overflows"@,
{
    GroupError::Aggregate("balance sheet: a decimal sum overflows".to_string())
}

/// Build the consolidated balance sheet labelled with the canonical
/// built-in labels.
pub fn build_consolidated_balance_sheet(post_elim_tb: &AggregatedTb, group_id: &str, as_of_date: Date) -> (r:
    Result<ConsolidatedBalanceSheet, GroupError>)
    requires
        accounts_sorted(post_elim_tb.account_totals@),
    ensures
        bs_fits(*post_elim_tb) && bs_balanced(post_elim_tb.account_totals@) ==> r is Ok,
        bs_fits(*post_elim_tb) && !bs_balanced(post_elim_tb.account_totals@) ==> (r matches Err(GroupError::Aggregate(m))
            && is_imbalance_message(
            m@,
            bs_section_total(post_elim_tb.account_totals@, BsSection::CurrentAsset) + bs_section_total(
                post_elim_tb.account_totals@,
                BsSection::NonCurrentAsset,
            ),
            bs_section_total(post_elim_tb.account_totals@, BsSection::CurrentAsset) + bs_section_total(
                post_elim_tb.account_totals@,
                BsSection::NonCurrentAsset,
            ) - bs_gap(post_elim_tb.account_totals@),
        )),
        r matches Ok(bs) ==> {
            &&& bs.group_id@ == group_id@
            &&& bs.as_of_date == as_of_date
            &&& bs.currency@ == post_elim_tb.currency@
            &&& bs_fits(*post_elim_tb) ==> bs_matches(
                bs,
                post_elim_tb.account_totals@,
                AccountNameDictionary::default_labels(),
            )
            &&& bs_fits(*post_elim_tb) ==> sections_ascending(bs)
        },
{
    let names = AccountNameDictionary::default();
    build_consolidated_balance_sheet_with_names(post_elim_tb, group_id, as_of_date, &names)
}

/// Build the consolidated balance sheet from a post-elimination trial
/// balance, labelling lines from `account_names`.  `Err` only when
/// `rust_decimal` reports an overflow, which [`bs_fits`] rules out.
#[verifier::rlimit(60)]
pub fn build_consolidated_balance_sheet_with_names(
    post_elim_tb: &AggregatedTb,
    group_id: &str,
    as_of_date: Date,
    account_names: &AccountNameDictionary,
) -> (r: Result<ConsolidatedBalanceSheet, GroupError>)
    requires
        accounts_sorted(post_elim_tb.account_totals@),
    ensures
        bs_fits(*post_elim_tb) && bs_balanced(post_elim_tb.account_totals@) ==> r is Ok,
        bs_fits(*post_elim_tb) && !bs_balanced(post_elim_tb.account_totals@) ==> (r matches Err(GroupError::Aggregate(m))
            && is_imbalance_message(
            m@,
            bs_section_total(post_elim_tb.account_totals@, BsSection::CurrentAsset) + bs_section_total(
                post_elim_tb.account_totals@,
                BsSection::NonCurrentAsset,
            ),
            bs_section_total(post_elim_tb.account_totals@, BsSection::CurrentAsset) + bs_section_total(
                post_elim_tb.account_totals@,
                BsSection::NonCurrentAsset,
            ) - bs_gap(post_elim_tb.account_totals@),
        )),
        r matches Ok(bs) ==> {
            &&& bs.group_id@ == group_id@
            &&& bs.as_of_date == as_of_date
            &&& bs.currency@ == post_elim_tb.currency@
            &&& bs_fits(*post_elim_tb) ==> bs_matches(
                bs,
                post_elim_tb.account_totals@,
                account_names@,
            )
            &&& bs_fits(*post_elim_tb) ==> sections_ascending(bs)
        },
{
    let accts = &post_elim_tb.account_totals;
    let ghost s = accts@;
    let ghost names = account_names@;
    let ghost fits = bs_fits(*post_elim_tb);
    let ghost bound = accounts_abs_total(s);
    let ghost sc = accounts_max_scale(s);
    proof {
        lemma_abs_total_prefix(s, 0);
    }
    let mut ca: Vec<BsLine> = Vec::new();
    let mut nca: Vec<BsLine> = Vec::new();
    let mut cl: Vec<BsLine> = Vec::new();
    let mut ncl: Vec<BsLine> = Vec::new();
    let mut eq: Vec<BsLine> = Vec::new();
    let mut nci: Vec<BsLine> = Vec::new();
    let mut ca_sum = Dec::zero();
    let mut nca_sum = Dec::zero();
    let mut cl_sum = Dec::zero();
    let mut ncl_sum = Dec::zero();
    let mut eq_sum = Dec::zero();
    let mut nci_sum = Dec::zero();
    let mut i: usize = 0;
    while i < accts.len()
        invariant
            i <= s.len(),
            s == accts@,
            s == post_elim_tb.account_totals@,
            names == account_names@,
            fits == bs_fits(*post_elim_tb),
            bound == accounts_abs_total(s),
            sc == accounts_max_scale(s),
            fits ==> fits_at(bound, sc),
            fits ==> {
                &&& bs_line_views(ca@) == bs_section_lines(s.take(i as int), BsSection::CurrentAsset, names)
                &&& bs_line_views(nca@) == bs_section_lines(s.take(i as int), BsSection::NonCurrentAsset, names)
                &&& bs_line_views(cl@) == bs_section_lines(s.take(i as int), BsSection::CurrentLiability, names)
                &&& bs_line_views(ncl@) == bs_section_lines(s.take(i as int), BsSection::NonCurrentLiability, names)
                &&& bs_line_views(eq@) == bs_section_lines(s.take(i as int), BsSection::Equity, names)
                &&& bs_line_views(nci@) == bs_section_lines(s.take(i as int), BsSection::Nci, names)
                &&& ca_sum.units() == bs_section_total(s.take(i as int), BsSection::CurrentAsset)
                &&& nca_sum.units() == bs_section_total(s.take(i as int), BsSection::NonCurrentAsset)
                &&& cl_sum.units() == bs_section_total(s.take(i as int), BsSection::CurrentLiability)
                &&& ncl_sum.units() == bs_section_total(s.take(i as int), BsSection::NonCurrentLiability)
                &&& eq_sum.units() == bs_section_total(s.take(i as int), BsSection::Equity)
                &&& nci_sum.units() == bs_section_total(s.take(i as int), BsSection::Nci)
                &&& abs(ca_sum.units()) + abs(nca_sum.units()) + abs(cl_sum.units()) + abs(
                    ncl_sum.units(),
                ) + abs(eq_sum.units()) + abs(nci_sum.units()) <= accounts_abs_total(s.take(i as int))
                &&& ca_sum.spec_scale() <= sc
                &&& nca_sum.spec_scale() <= sc
                &&& cl_sum.spec_scale() <= sc
                &&& ncl_sum.spec_scale() <= sc
                &&& eq_sum.spec_scale() <= sc
                &&& nci_sum.spec_scale() <= sc
            },
        decreases accts.len() - i,
    {
        proof {
            lemma_abs_total_prefix(s, i as int);
            lemma_abs_total_prefix(s, i + 1);
            assert(s.take(i + 1).drop_last() =~= s.take(i as int));
            assert(s.take(i + 1).last() == s[i as int]);
        }
        let a = &accts[i];
        let sec = classify_bs_section_from_account(a.account_code.as_str(), a);
        if sec != BsSection::Excluded {
            let debit_side = sec == BsSection::CurrentAsset || sec == BsSection::NonCurrentAsset;
            proof {
                if fits {
                    let d = a.debit_total;
                    let c = a.credit_total;
                    assert(abs(c.units() - d.units()) <= abs_dc(*a));
                    assert(abs(d.units() - c.units()) <= abs_dc(*a));
                    lemma_bounded_fits(c.units() - d.units(), bound, sc, max_nat(c.spec_scale(), d.spec_scale()));
                    lemma_bounded_fits(d.units() - c.units(), bound, sc, max_nat(d.spec_scale(), c.spec_scale()));
                }
            }
            let amount = if debit_side {
                dec_sub(a.debit_total, a.credit_total)
            } else {
                dec_sub(a.credit_total, a.debit_total)
            };
            let amount = match amount {
                Some(x) => x,
                None => {
                    return Err(overflow());
                },
            };
            let name = account_names.get(a.account_code.as_str());
            let line = BsLine { account_code: a.account_code.clone(), account_name: name, amount };
            let ghost line_view = (line.account_code@, line.account_name@, line.amount.units());
            proof {
                if fits {
                    assert(abs(amount.units()) <= abs_dc(s[i as int]));
                }
            }
            if sec == BsSection::CurrentAsset {
                proof {
                    if fits {
                        lemma_bounded_fits(ca_sum.units() + amount.units(), bound, sc, max_nat(ca_sum.spec_scale(), amount.spec_scale()));
                    }
                }
                ca_sum = match dec_add(ca_sum, amount) {
                    Some(x) => x,
                    None => {
                        return Err(overflow());
                    },
                };
                let ghost before = ca@;
                ca.push(line);
                proof {
                    assert(bs_line_views(ca@) =~= bs_line_views(before).push(line_view));
                }
            } else if sec == BsSection::NonCurrentAsset {
                proof {
                    if fits {
                        lemma_bounded_fits(nca_sum.units() + amount.units(), bound, sc, max_nat(nca_sum.spec_scale(), amount.spec_scale()));
                    }
                }
                nca_sum = match dec_add(nca_sum, amount) {
                    Some(x) => x,
                    None => {
                        return Err(overflow());
                    },
                };
                let ghost before = nca@;
                nca.push(line);
                proof {
                    assert(bs_line_views(nca@) =~= bs_line_views(before).push(line_view));
                }
            } else if sec == BsSection::CurrentLiability {
                proof {
                    if fits {
                        lemma_bounded_fits(cl_sum.units() + amount.units(), bound, sc, max_nat(cl_sum.spec_scale(), amount.spec_scale()));
                    }
                }
                cl_sum = match dec_add(cl_sum, amount) {
                    Some(x) => x,
                    None => {
                        return Err(overflow());
                    },
                };
                let ghost before = cl@;
                cl.push(line);
                proof {
                    assert(bs_line_views(cl@) =~= bs_line_views(before).push(line_view));
                }
            } else if sec == BsSection::NonCurrentLiability {
                proof {
                    if fits {
                        lemma_bounded_fits(ncl_sum.units() + amount.units(), bound, sc, max_nat(ncl_sum.spec_scale(), amount.spec_scale()));
                    }
                }
                ncl_sum = match dec_add(ncl_sum, amount) {
                    Some(x) => x,
                    None => {
                        return Err(overflow());
                    },
                };
                let ghost before = ncl@;
                ncl.push(line);
                proof {
                    assert(bs_line_views(ncl@) =~= bs_line_views(before).push(line_view));
                }
            } else if sec == BsSection::Equity {
                proof {
                    if fits {
                        lemma_bounded_fits(eq_sum.units() + amount.units(), bound, sc, max_nat(eq_sum.spec_scale(), amount.spec_scale()));
                    }
                }
                eq_sum = match dec_add(eq_sum, amount) {
                    Some(x) => x,
                    None => {
                        return Err(overflow());
                    },
                };
                let ghost before = eq@;
                eq.push(line);
                proof {
                    assert(bs_line_views(eq@) =~= bs_line_views(before).push(line_view));
                }
            } else {
                proof {
                    if fits {
                        lemma_bounded_fits(nci_sum.units() + amount.units(), bound, sc, max_nat(nci_sum.spec_scale(), amount.spec_scale()));
                    }
                }
                nci_sum = match dec_add(nci_sum, amount) {
                    Some(x) => x,
                    None => {
                        return Err(overflow());
                    },
                };
                let ghost before = nci@;
                nci.push(line);
                proof {
                    assert(bs_line_views(nci@) =~= bs_line_views(before).push(line_view));
                }
            }
        }
        i = i + 1;
    }
    proof {
        assert(s.take(i as int) =~= s);
        if fits {
            lemma_bounded_fits(ca_sum.units() + nca_sum.units(), bound, sc, max_nat(ca_sum.spec_scale(), nca_sum.spec_scale()));
            lemma_bounded_fits(cl_sum.units() + ncl_sum.units(), bound, sc, max_nat(cl_sum.spec_scale(), ncl_sum.spec_scale()));
        }
    }
    let total_assets = match dec_add(ca_sum, nca_sum) {
        Some(x) => x,
        None => {
            return Err(overflow());
        },
    };
    let total_liabilities = match dec_add(cl_sum, ncl_sum) {
        Some(x) => x,
        None => {
            return Err(overflow());
        },
    };
    proof {
        if fits {
            lemma_bounded_fits(total_liabilities.units() + eq_sum.units(), bound, sc, max_nat(total_liabilities.spec_scale(), eq_sum.spec_scale()));
        }
    }
    let le = match dec_add(total_liabilities, eq_sum) {
        Some(x) => x,
        None => {
            return Err(overflow());
        },
    };
    proof {
        if fits {
            lemma_bounded_fits(le.units() + nci_sum.units(), bound, sc, max_nat(le.spec_scale(), nci_sum.spec_scale()));
        }
    }
    let total_lpe = match dec_add(le, nci_sum) {
        Some(x) => x,
        None => {
            return Err(overflow());
        },
    };
    proof {
        if fits {
            lemma_bounded_fits(total_assets.units() - total_lpe.units(), bound, sc, max_nat(total_assets.spec_scale(), total_lpe.spec_scale()));
        }
    }
    let diff = match dec_sub(total_assets, total_lpe) {
        Some(x) => x,
        None => {
            return Err(overflow());
        },
    };
    let tolerance = match Dec::new(1, 2) {
        Some(t) => t,
        None => {
            return Err(overflow());
        },
    };
    proof {
        assert(tolerance.units() == pow10(26)) by {
            assert(crate::dec::shift_of(2) == 26);
        }
    }
    if dec_lt(tolerance, diff.abs()) {
        let msg = "build_consolidated_balance_sheet: total_assets ".to_string().concat(dec_to_str(total_assets).as_str()).concat(
            " != total_liabilities + total_equity + total_nci ",
        ).concat(dec_to_str(total_lpe).as_str()).concat(" (diff ").concat(dec_to_str(diff).as_str()).concat(")");
        proof {
            reveal_strlit("build_consolidated_balance_sheet: total_assets ");
            reveal_strlit(" != total_liabilities + total_equity + total_nci ");
            reveal_strlit(" (diff ");
            reveal_strlit(")");
            assert(msg@ == imbalance_text(total_assets, total_lpe, diff));
        }
        return Err(GroupError::Aggregate(msg));
    }
    let bs = ConsolidatedBalanceSheet {
        group_id: group_id.to_string(),
        as_of_date,
        currency: post_elim_tb.currency.clone(),
        current_assets: ca,
        non_current_assets: nca,
        current_liabilities: cl,
        non_current_liabilities: ncl,
        equity: eq,
        nci,
        total_assets,
        total_liabilities,
        total_equity: eq_sum,
        total_nci: nci_sum,
        total_liabilities_plus_equity_plus_nci: total_lpe,
    };
    proof {
        if fits {
            assert(bs_matches(bs, s, names));
            lemma_sections_ascending(bs, s, names);
        }
    }
    Ok(bs)
}

} // verus!
