//! Post-elimination trial balance and the NCI / equity-method overlay.
//!
//! Elimination journal entries are posted line by line onto the
//! pre-elimination account totals; an account no contributing entity
//! touched is created with zero balances, no contributing entities and
//! the default account type.  The overlay then moves the total closing NCI
//! from retained earnings (`3300`) into NCI equity (`3500`), and posts
//! each equity-method investment: its closing carrying value to the
//! investment account (`1850`) against retained earnings, and its share of
//! profit to `4900` against retained earnings.  Every posting is balanced,
//! so the overlay leaves `Σ debit - Σ credit` unchanged.
use vstd::prelude::*;
use vstd::string::*;

use crate::aggregate::accounts::{
    abs_dc, accounts_abs_total, accounts_map, accounts_max_scale, accounts_sorted,
    base_credit, base_debit, base_credit_scale, base_debit_scale, default_account_type,
    lemma_abs_total_insert, lemma_abs_total_prefix, lemma_abs_total_update, lemma_map_at,
    lemma_map_contains_iff, post_to_account, posting_fits, AccountType, AggregatedAccount,
};
use crate::aggregate::equity_method::EquityMethodInvestment;
use crate::aggregate::journal::{JournalEntry, JournalEntryLine};
use crate::aggregate::nci::NciRollforward;
use crate::aggregate::pre_elim::AggregatedTb;
use crate::dec::{abs, dec_add, fits_at, lemma_bounded_fits, max_nat, Dec};
use crate::errors::GroupError;
use crate::text::str_eq;

verus! {

/// An account in units: debit, credit, net, contributing entities, type.
pub open spec fn acct_units(a: AggregatedAccount) -> (int, int, int, u32, AccountType) {
    (
        a.debit_total.units(),
        a.credit_total.units(),
        a.net_balance.units(),
        a.contributing_entities,
        a.account_type,
    )
}

/// The accounts of a map, in units.
pub open spec fn units_view(m: Map<Seq<char>, AggregatedAccount>) -> Map<
    Seq<char>,
    (int, int, int, u32, AccountType),
> {
    Map::new(|k: Seq<char>| m.contains_key(k), |k: Seq<char>| acct_units(m[k]))
}

/// Post `d` / `c` to `code`: an absent account starts from zero with no
/// contributing entities and the default type.
pub open spec fn post_units(
    um: Map<Seq<char>, (int, int, int, u32, AccountType)>,
    code: Seq<char>,
    d: int,
    c: int,
) -> Map<Seq<char>, (int, int, int, u32, AccountType)> {
    let base = if um.contains_key(code) {
        um[code]
    } else {
        (0int, 0int, 0int, 0u32, AccountType::Asset)
    };
    um.insert(code, (base.0 + d, base.1 + c, (base.0 + d) - (base.1 + c), base.3, base.4))
}

/// A posting in units: account code, debit, credit.
pub type Posting = (Seq<char>, int, int);

/// Apply postings in order.
pub open spec fn apply_postings(
    um: Map<Seq<char>, (int, int, int, u32, AccountType)>,
    ps: Seq<Posting>,
) -> Map<Seq<char>, (int, int, int, u32, AccountType)>
    decreases ps.len(),
{
    if ps.len() == 0 {
        um
    } else {
        post_units(apply_postings(um, ps.drop_last()), ps.last().0, ps.last().1, ps.last().2)
    }
}

/// Sum of the magnitudes of the postings' debits and credits.
pub open spec fn postings_abs(ps: Seq<Posting>) -> int
    decreases ps.len(),
{
    if ps.len() == 0 {
        0
    } else {
        postings_abs(ps.drop_last()) + abs(ps.last().1) + abs(ps.last().2)
    }
}

/// Debits minus credits over the postings.
pub open spec fn postings_balance(ps: Seq<Posting>) -> int
    decreases ps.len(),
{
    if ps.len() == 0 {
        0
    } else {
        postings_balance(ps.drop_last()) + ps.last().1 - ps.last().2
    }
}

pub proof fn lemma_postings_concat(
    um: Map<Seq<char>, (int, int, int, u32, AccountType)>,
    a: Seq<Posting>,
    b: Seq<Posting>,
)
    ensures
        postings_abs(a + b) == postings_abs(a) + postings_abs(b),
        postings_balance(a + b) == postings_balance(a) + postings_balance(b),
        apply_postings(um, a + b) == apply_postings(apply_postings(um, a), b),
        0 <= postings_abs(b),
    decreases b.len(),
{
    if b.len() == 0 {
        assert(a + b =~= a);
    } else {
        lemma_postings_concat(um, a, b.drop_last());
        assert((a + b).drop_last() =~= a + b.drop_last());
        assert((a + b).last() == b.last());
    }
}

pub proof fn lemma_postings_nonneg(ps: Seq<Posting>)
    ensures
        0 <= postings_abs(ps),
    decreases ps.len(),
{
    if ps.len() > 0 {
        lemma_postings_nonneg(ps.drop_last());
    }
}

/// A prefix of postings has no more magnitude than the whole.
pub proof fn lemma_postings_prefix(ps: Seq<Posting>, j: int)
    requires
        0 <= j <= ps.len(),
    ensures
        0 <= postings_abs(ps.take(j)) <= postings_abs(ps),
    decreases ps.len() - j,
{
    if j < ps.len() {
        lemma_postings_prefix(ps, j + 1);
        assert(ps.take(j + 1).drop_last() =~= ps.take(j));
    } else {
        assert(ps.take(j) =~= ps);
    }
    lemma_postings_nonneg(ps.take(j));
}

/// A posting computes exactly when the accounts' bound plus the posting's
/// magnitudes fits at a scale no smaller than every scale involved.
pub proof fn lemma_posting_fits(s: Seq<AggregatedAccount>, code: Seq<char>, d: Dec, c: Dec, b: int, sc: nat)
    requires
        accounts_sorted(s),
        accounts_abs_total(s) + abs(d.units()) + abs(c.units()) <= b,
        fits_at(b, sc),
        accounts_max_scale(s) <= sc,
        d.spec_scale() <= sc,
        c.spec_scale() <= sc,
    ensures
        posting_fits(s, code, d, c),
        abs(base_debit(s, code)) + abs(base_credit(s, code)) <= accounts_abs_total(s),
        base_debit_scale(s, code) <= sc,
        base_credit_scale(s, code) <= sc,
{
    lemma_abs_total_prefix(s, 0);
    lemma_map_contains_iff(s, code);
    if accounts_map(s).contains_key(code) {
        let i = choose|i: int| 0 <= i < s.len() && #[trigger] s[i].account_code@ == code;
        lemma_map_at(s, i);
        lemma_abs_total_prefix(s, i);
        lemma_abs_total_prefix(s, i + 1);
    }
    let sd = max_nat(base_debit_scale(s, code), d.spec_scale());
    let sc2 = max_nat(base_credit_scale(s, code), c.spec_scale());
    let dd = base_debit(s, code) + d.units();
    let cc = base_credit(s, code) + c.units();
    lemma_bounded_fits(dd, b, sc, sd);
    lemma_bounded_fits(cc, b, sc, sc2);
    lemma_bounded_fits(dd - cc, b, sc, max_nat(sd, sc2));
}

/// Post `debit_amount` / `credit_amount` to `account_code`, creating the
/// account (zero balances, no contributing entities, default type) when
/// absent.  `Err` only when `rust_decimal` reports an overflow, which
/// [`posting_fits`] rules out; the trial balance is then unchanged.
pub fn apply_line_to_account(
    post: &mut AggregatedTb,
    account_code: &str,
    debit_amount: Dec,
    credit_amount: Dec,
) -> (r: Result<(), GroupError>)
    requires
        accounts_sorted(old(post).account_totals@),
    ensures
        accounts_sorted(final(post).account_totals@),
        final(post).group_id == old(post).group_id,
        final(post).currency == old(post).currency,
        final(post).as_of_date == old(post).as_of_date,
        final(post).contributing_entities@ == old(post).contributing_entities@,
        final(post).deferred_entities@ == old(post).deferred_entities@,
        final(post).total_debits == old(post).total_debits,
        final(post).total_credits == old(post).total_credits,
        r is Err ==> final(post).account_totals@ == old(post).account_totals@,
        posting_fits(old(post).account_totals@, account_code@, debit_amount, credit_amount) ==> {
            &&& r is Ok
            &&& units_view(accounts_map(final(post).account_totals@)) == post_units(
                units_view(accounts_map(old(post).account_totals@)),
                account_code@,
                debit_amount.units(),
                credit_amount.units(),
            )
            &&& accounts_abs_total(final(post).account_totals@) <= accounts_abs_total(
                old(post).account_totals@,
            ) + abs(debit_amount.units()) + abs(credit_amount.units())
            &&& accounts_max_scale(final(post).account_totals@) <= max_nat(
                accounts_max_scale(old(post).account_totals@),
                max_nat(
                    max_nat(base_debit_scale(old(post).account_totals@, account_code@), debit_amount.spec_scale()),
                    max_nat(base_credit_scale(old(post).account_totals@, account_code@), credit_amount.spec_scale()),
                ),
            )
        },
{
    let ghost s = post.account_totals@;
    let code = account_code.to_string();
    let ghost fits = posting_fits(s, account_code@, debit_amount, credit_amount);
    proof {
        lemma_map_contains_iff(s, account_code@);
        if accounts_map(s).contains_key(account_code@) {
            let i = choose|i: int| 0 <= i < s.len() && #[trigger] s[i].account_code@ == account_code@;
            lemma_map_at(s, i);
            lemma_abs_total_prefix(s, i);
            lemma_abs_total_prefix(s, i + 1);
        }
    }
    let r = post_to_account(&mut post.account_totals, &code, debit_amount, credit_amount, default_account_type());
    match r {
        Ok(i) => {
            proof {
                let t = post.account_totals@;
                let a = t[i as int];
                if accounts_map(s).contains_key(account_code@) {
                    lemma_abs_total_update(s, i as int, a);
                    lemma_map_at(s, i as int);
                } else {
                    lemma_abs_total_insert(s, i as int, a);
                }
                if fits {
                    assert(units_view(accounts_map(t)) =~= post_units(
                        units_view(accounts_map(s)),
                        account_code@,
                        debit_amount.units(),
                        credit_amount.units(),
                    ));
                }
            }
            Ok(())
        },
        Err(e) => Err(e),
    }
}

/// Sum of the debit totals of the accounts.
pub open spec fn debit_sum(s: Seq<AggregatedAccount>) -> int
    decreases s.len(),
{
    if s.len() == 0 {
        0
    } else {
        debit_sum(s.drop_last()) + s.last().debit_total.units()
    }
}

/// Sum of the credit totals of the accounts.
pub open spec fn credit_sum(s: Seq<AggregatedAccount>) -> int
    decreases s.len(),
{
    if s.len() == 0 {
        0
    } else {
        credit_sum(s.drop_last()) + s.last().credit_total.units()
    }
}

/// Total debits and total credits over the accounts.  `None` only on
/// overflow, which the accounts' bound fitting at their largest scale
/// rules out.
pub fn recompute_totals(post: &AggregatedTb) -> (r: Option<(Dec, Dec)>)
    ensures
        fits_at(accounts_abs_total(post.account_totals@), accounts_max_scale(post.account_totals@))
            ==> (r matches Some(t) && t.0.units() == debit_sum(post.account_totals@) && t.1.units()
            == credit_sum(post.account_totals@)),
{
    let ghost s = post.account_totals@;
    let ghost fits = fits_at(accounts_abs_total(s), accounts_max_scale(s));
    let mut td = Dec::zero();
    let mut tc = Dec::zero();
    let mut i: usize = 0;
    while i < post.account_totals.len()
        invariant
            s == post.account_totals@,
            i <= s.len(),
            fits == fits_at(accounts_abs_total(s), accounts_max_scale(s)),
            fits ==> {
                &&& td.units() == debit_sum(s.take(i as int))
                &&& tc.units() == credit_sum(s.take(i as int))
                &&& abs(td.units()) + abs(tc.units()) <= accounts_abs_total(s.take(i as int))
                &&& td.spec_scale() <= accounts_max_scale(s)
                &&& tc.spec_scale() <= accounts_max_scale(s)
            },
        decreases post.account_totals.len() - i,
    {
        proof {
            lemma_abs_total_prefix(s, i as int);
            lemma_abs_total_prefix(s, i + 1);
            assert(s.take(i + 1).drop_last() =~= s.take(i as int));
            assert(s.take(i + 1).last() == s[i as int]);
            if fits {
                let a = s[i as int];
                lemma_bounded_fits(td.units() + a.debit_total.units(), accounts_abs_total(s), accounts_max_scale(s), max_nat(td.spec_scale(), a.debit_total.spec_scale()));
                lemma_bounded_fits(tc.units() + a.credit_total.units(), accounts_abs_total(s), accounts_max_scale(s), max_nat(tc.spec_scale(), a.credit_total.spec_scale()));
            }
        }
        td = dec_add(td, post.account_totals[i].debit_total)?;
        tc = dec_add(tc, post.account_totals[i].credit_total)?;
        i = i + 1;
    }
    proof {
        assert(s.take(i as int) =~= s);
    }
    Some((td, tc))
}

/// The balance check of a trial balance.  Input trial balances may carry
/// deliberately injected imbalances, so an unbalanced trial balance is
/// tolerated: the check always passes.
pub fn verify_balance_invariant(post: &AggregatedTb) -> (r: Result<(), GroupError>)
    ensures
        r is Ok,
{
    Ok(())
}



/// The postings of journal-entry lines, in units.
pub open spec fn line_postings(lines: Seq<JournalEntryLine>) -> Seq<Posting> {
    lines.map_values(|l: JournalEntryLine| (l.gl_account@, l.debit_amount.units(), l.credit_amount.units()))
}

/// The postings of the elimination entries among `jes`, in order; other
/// entries are skipped.
pub open spec fn je_postings(jes: Seq<JournalEntry>) -> Seq<Posting>
    decreases jes.len(),
{
    if jes.len() == 0 {
        Seq::empty()
    } else if jes.last().header.is_elimination {
        je_postings(jes.drop_last()) + line_postings(jes.last().lines@)
    } else {
        je_postings(jes.drop_last())
    }
}

/// Largest scale among the amounts of the lines.
pub open spec fn lines_max_scale(lines: Seq<JournalEntryLine>) -> nat
    decreases lines.len(),
{
    if lines.len() == 0 {
        0
    } else {
        max_nat(
            lines_max_scale(lines.drop_last()),
            max_nat(lines.last().debit_amount.spec_scale(), lines.last().credit_amount.spec_scale()),
        )
    }
}

/// Largest scale among the amounts of the elimination entries.
pub open spec fn jes_max_scale(jes: Seq<JournalEntry>) -> nat
    decreases jes.len(),
{
    if jes.len() == 0 {
        0
    } else if jes.last().header.is_elimination {
        max_nat(jes_max_scale(jes.drop_last()), lines_max_scale(jes.last().lines@))
    } else {
        jes_max_scale(jes.drop_last())
    }
}

proof fn lemma_lines_scale(lines: Seq<JournalEntryLine>, j: int)
    requires
        0 <= j < lines.len(),
    ensures
        lines[j].debit_amount.spec_scale() <= lines_max_scale(lines),
        lines[j].credit_amount.spec_scale() <= lines_max_scale(lines),
    decreases lines.len(),
{
    if j < lines.len() - 1 {
        lemma_lines_scale(lines.drop_last(), j);
    }
}

proof fn lemma_je_prefix(jes: Seq<JournalEntry>, k: int)
    requires
        0 <= k < jes.len(),
    ensures
        je_postings(jes.take(k + 1)) == je_postings(jes.take(k)) + (if jes[k].header.is_elimination {
            line_postings(jes[k].lines@)
        } else {
            Seq::empty()
        }),
        postings_abs(je_postings(jes.take(k + 1))) <= postings_abs(je_postings(jes)),
        jes[k].header.is_elimination ==> lines_max_scale(jes[k].lines@) <= jes_max_scale(jes),
    decreases jes.len() - k,
{
    let e: Seq<Posting> = Seq::empty();
    assert(jes.take(k + 1).drop_last() =~= jes.take(k));
    assert(jes.take(k + 1).last() == jes[k]);
    assert(je_postings(jes.take(k)) + e =~= je_postings(jes.take(k)));
    if k + 1 < jes.len() {
        lemma_je_prefix(jes, k + 1);
        lemma_postings_concat(Map::empty(), je_postings(jes.take(k + 1)), if jes[k + 1].header.is_elimination {
            line_postings(jes[k + 1].lines@)
        } else {
            e
        });
        if jes[k].header.is_elimination {
            lemma_je_scale_prefix(jes, k);
        }
    } else {
        assert(jes.take(k + 1) =~= jes);
        if jes[k].header.is_elimination {
            lemma_je_scale_prefix(jes, k);
        }
    }
}

proof fn lemma_je_scale_prefix(jes: Seq<JournalEntry>, k: int)
    requires
        0 <= k < jes.len(),
        jes[k].header.is_elimination,
    ensures
        lines_max_scale(jes[k].lines@) <= jes_max_scale(jes),
    decreases jes.len(),
{
    if k < jes.len() - 1 {
        lemma_je_scale_prefix(jes.drop_last(), k);
    }
}

/// Some elimination entry is in a currency other than `currency`.
pub open spec fn has_foreign_elimination(jes: Seq<JournalEntry>, currency: Seq<char>) -> bool {
    exists|k: int|
        0 <= k < jes.len() && (#[trigger] jes[k]).header.is_elimination && jes[k].header.currency@
            != currency
}

/// Posting the elimination entries onto `s` computes exactly.
pub open spec fn elim_fits(s: Seq<AggregatedAccount>, jes: Seq<JournalEntry>) -> bool {
    fits_at(accounts_abs_total(s) + postings_abs(je_postings(jes)), max_nat(accounts_max_scale(s), jes_max_scale(jes)))
}

/// Everything but the accounts and the totals is carried over.
pub open spec fn same_header(a: AggregatedTb, b: AggregatedTb) -> bool {
    &&& a.group_id == b.group_id
    &&& a.currency == b.currency
    &&& a.as_of_date == b.as_of_date
    &&& a.contributing_entities@ == b.contributing_entities@
    &&& a.deferred_entities@ == b.deferred_entities@
}

/// Post every line of `lines` in order.
fn post_lines(
    post: &mut AggregatedTb,
    lines: &Vec<JournalEntryLine>,
    Ghost(b): Ghost<int>,
    Ghost(sc): Ghost<nat>,
) -> (r: Result<(), GroupError>)
    requires
        accounts_sorted(old(post).account_totals@),
    ensures
        accounts_sorted(final(post).account_totals@),
        same_header(*old(post), *final(post)),
        final(post).total_debits == old(post).total_debits,
        final(post).total_credits == old(post).total_credits,
        ({
            &&& fits_at(b, sc)
            &&& accounts_abs_total(old(post).account_totals@) + postings_abs(line_postings(lines@)) <= b
            &&& accounts_max_scale(old(post).account_totals@) <= sc
            &&& lines_max_scale(lines@) <= sc
        }) ==> {
            &&& r is Ok
            &&& units_view(accounts_map(final(post).account_totals@)) == apply_postings(
                units_view(accounts_map(old(post).account_totals@)),
                line_postings(lines@),
            )
            &&& accounts_abs_total(final(post).account_totals@) <= accounts_abs_total(
                old(post).account_totals@,
            ) + postings_abs(line_postings(lines@))
            &&& accounts_max_scale(final(post).account_totals@) <= sc
        },
{
    let ghost start = *post;
    let ghost ps = line_postings(lines@);
    let ghost ok = {
        &&& fits_at(b, sc)
        &&& accounts_abs_total(start.account_totals@) + postings_abs(ps) <= b
        &&& accounts_max_scale(start.account_totals@) <= sc
        &&& lines_max_scale(lines@) <= sc
    };
    let mut j: usize = 0;
    while j < lines.len()
        invariant
            ps == line_postings(lines@),
            start == *old(post),
            j <= lines@.len(),
            accounts_sorted(post.account_totals@),
            same_header(start, *post),
            post.total_debits == start.total_debits,
            post.total_credits == start.total_credits,
            ok == {
                &&& fits_at(b, sc)
                &&& accounts_abs_total(start.account_totals@) + postings_abs(ps) <= b
                &&& accounts_max_scale(start.account_totals@) <= sc
                &&& lines_max_scale(lines@) <= sc
            },
            ok ==> {
                &&& units_view(accounts_map(post.account_totals@)) == apply_postings(
                    units_view(accounts_map(start.account_totals@)),
                    ps.take(j as int),
                )
                &&& accounts_abs_total(post.account_totals@) <= accounts_abs_total(start.account_totals@)
                    + postings_abs(ps.take(j as int))
                &&& accounts_max_scale(post.account_totals@) <= sc
            },
        decreases lines.len() - j,
    {
        let l = &lines[j];
        proof {
            assert(ps.take(j + 1).drop_last() =~= ps.take(j as int));
            assert(ps.take(j + 1).last() == ps[j as int]);
            lemma_postings_prefix(ps, j + 1);
            lemma_lines_scale(lines@, j as int);
            if ok {
                lemma_posting_fits(post.account_totals@, l.gl_account@, l.debit_amount, l.credit_amount, b, sc);
            }
        }
        apply_line_to_account(post, l.gl_account.as_str(), l.debit_amount, l.credit_amount)?;
        j = j + 1;
    }
    proof {
        assert(ps.take(j as int) =~= ps);
    }
    Ok(())
}

/// Post the elimination entries onto a copy of the pre-elimination trial
/// balance and recompute its totals.  Entries not flagged as eliminations
/// are skipped.  `Err` when an elimination entry is in another currency
/// than the trial balance, or when `rust_decimal` reports an overflow
/// (which [`elim_fits`] and the result's bound rule out).
pub fn apply_eliminations_to_tb(pre_elim: &AggregatedTb, elim_jes: &[JournalEntry]) -> (r: Result<
    AggregatedTb,
    GroupError,
>)
    requires
        accounts_sorted(pre_elim.account_totals@),
    ensures
        has_foreign_elimination(elim_jes@, pre_elim.currency@) ==> r is Err,
        r matches Ok(post) ==> {
            &&& !has_foreign_elimination(elim_jes@, pre_elim.currency@)
            &&& same_header(*pre_elim, post)
            &&& accounts_sorted(post.account_totals@)
            &&& elim_fits(pre_elim.account_totals@, elim_jes@) ==> {
                &&& units_view(accounts_map(post.account_totals@)) == apply_postings(
                    units_view(accounts_map(pre_elim.account_totals@)),
                    je_postings(elim_jes@),
                )
                &&& post.total_debits.units() == debit_sum(post.account_totals@)
                &&& post.total_credits.units() == credit_sum(post.account_totals@)
            }
        },
        (!has_foreign_elimination(elim_jes@, pre_elim.currency@) && elim_fits(
            pre_elim.account_totals@,
            elim_jes@,
        )) ==> r is Ok,
{
    let ghost jes = elim_jes@;
    let ghost b = accounts_abs_total(pre_elim.account_totals@) + postings_abs(je_postings(jes));
    let ghost sc = max_nat(accounts_max_scale(pre_elim.account_totals@), jes_max_scale(jes));
    let ghost fits = elim_fits(pre_elim.account_totals@, jes);
    let ghost um0 = units_view(accounts_map(pre_elim.account_totals@));
    let mut post = pre_elim.duplicate();
    let mut k: usize = 0;
    while k < elim_jes.len()
        invariant
            jes == elim_jes@,
            k <= jes.len(),
            accounts_sorted(post.account_totals@),
            same_header(*pre_elim, post),
            forall|m: int|
                0 <= m < k ==> !((#[trigger] jes[m]).header.is_elimination && jes[m].header.currency@
                    != pre_elim.currency@),
            fits == elim_fits(pre_elim.account_totals@, jes),
            b == accounts_abs_total(pre_elim.account_totals@) + postings_abs(je_postings(jes)),
            sc == max_nat(accounts_max_scale(pre_elim.account_totals@), jes_max_scale(jes)),
            fits ==> {
                &&& units_view(accounts_map(post.account_totals@)) == apply_postings(um0, je_postings(jes.take(k as int)))
                &&& accounts_abs_total(post.account_totals@) <= accounts_abs_total(pre_elim.account_totals@)
                    + postings_abs(je_postings(jes.take(k as int)))
                &&& accounts_max_scale(post.account_totals@) <= sc
            },
        decreases elim_jes.len() - k,
    {
        let je = &elim_jes[k];
        proof {
            lemma_je_prefix(jes, k as int);
        }
        if je.header.is_elimination {
            if !str_eq(je.header.currency.as_str(), post.currency.as_str()) {
                return Err(GroupError::Aggregate("apply_eliminations_to_tb: elimination entry currency differs from the trial balance currency".to_string()));
            }
            proof {
                lemma_postings_concat(um0, je_postings(jes.take(k as int)), line_postings(je.lines@));
            }
            post_lines(&mut post, &je.lines, Ghost(b), Ghost(sc))?;
        }
        k = k + 1;
    }
    proof {
        assert(jes.take(k as int) =~= jes);
        lemma_abs_total_prefix(post.account_totals@, 0);
        if fits {
            lemma_bounded_fits(accounts_abs_total(post.account_totals@), b, sc, accounts_max_scale(post.account_totals@));
        }
    }
    let (td, tc) = match recompute_totals(&post) {
        Some(t) => t,
        None => {
            return Err(GroupError::Aggregate("apply_eliminations_to_tb: totals overflow".to_string()));
        },
    };
    post.total_debits = td;
    post.total_credits = tc;
    verify_balance_invariant(&post)?;
    Ok(post)
}

/// Sum of the closing NCI balances.
pub open spec fn closing_nci_total(s: Seq<NciRollforward>) -> int
    decreases s.len(),
{
    if s.len() == 0 {
        0
    } else {
        closing_nci_total(s.drop_last()) + s.last().closing_nci.units()
    }
}

/// Sum of the magnitudes of the closing NCI balances.
pub open spec fn closing_nci_abs(s: Seq<NciRollforward>) -> int
    decreases s.len(),
{
    if s.len() == 0 {
        0
    } else {
        closing_nci_abs(s.drop_last()) + abs(s.last().closing_nci.units())
    }
}

/// Largest scale among the closing NCI balances.
pub open spec fn closing_nci_scale(s: Seq<NciRollforward>) -> nat
    decreases s.len(),
{
    if s.len() == 0 {
        0
    } else {
        max_nat(closing_nci_scale(s.drop_last()), s.last().closing_nci.spec_scale())
    }
}

/// The NCI reclassification: credit NCI equity, debit retained earnings.
pub open spec fn nci_postings(t: int) -> Seq<Posting> {
    if t != 0 {
        seq![("3500"@, 0int, t), ("3300"@, t, 0int)]
    } else {
        Seq::empty()
    }
}

/// One investment's postings: carrying value to the investment account
/// against retained earnings, share of profit to `4900` against retained
/// earnings; a zero amount posts nothing.
pub open spec fn investment_postings(inv: EquityMethodInvestment) -> Seq<Posting> {
    let ccv = inv.closing_carrying_value.units();
    let sop = inv.share_of_profit.units();
    (if ccv != 0 {
        seq![("1850"@, ccv, 0int), ("3300"@, 0int, ccv)]
    } else {
        Seq::<Posting>::empty()
    }) + (if sop != 0 {
        seq![("4900"@, 0int, sop), ("3300"@, sop, 0int)]
    } else {
        Seq::<Posting>::empty()
    })
}

/// The postings of all investments, in order.
pub open spec fn investments_postings(invs: Seq<EquityMethodInvestment>) -> Seq<Posting>
    decreases invs.len(),
{
    if invs.len() == 0 {
        Seq::empty()
    } else {
        investments_postings(invs.drop_last()) + investment_postings(invs.last())
    }
}

/// Largest scale among the investments' carrying values and shares of
/// profit.
pub open spec fn investments_scale(invs: Seq<EquityMethodInvestment>) -> nat
    decreases invs.len(),
{
    if invs.len() == 0 {
        0
    } else {
        max_nat(
            investments_scale(invs.drop_last()),
            max_nat(invs.last().closing_carrying_value.spec_scale(), invs.last().share_of_profit.spec_scale()),
        )
    }
}

/// All postings of the overlay, in order.
pub open spec fn overlay_postings(nci: Seq<NciRollforward>, invs: Seq<EquityMethodInvestment>) -> Seq<
    Posting,
> {
    nci_postings(closing_nci_total(nci)) + investments_postings(invs)
}

/// Every sum and posting of the overlay computes exactly.
pub open spec fn overlay_fits(s: Seq<AggregatedAccount>, nci: Seq<NciRollforward>, invs: Seq<EquityMethodInvestment>) -> bool {
    fits_at(
        accounts_abs_total(s) + 2 * closing_nci_abs(nci) + postings_abs(investments_postings(invs)),
        max_nat(accounts_max_scale(s), max_nat(closing_nci_scale(nci), investments_scale(invs))),
    )
}

/// Credit minus debit of account `code`, zero when the accounts have no
/// such account.
pub open spec fn account_credit_balance(s: Seq<AggregatedAccount>, code: Seq<char>) -> int {
    if accounts_map(s).contains_key(code) {
        accounts_map(s)[code].credit_total.units() - accounts_map(s)[code].debit_total.units()
    } else {
        0
    }
}

/// Postings to accounts other than `code` leave `code` as it was.
proof fn lemma_postings_untouched(
    um: Map<Seq<char>, (int, int, int, u32, AccountType)>,
    ps: Seq<Posting>,
    code: Seq<char>,
)
    requires
        forall|i: int| 0 <= i < ps.len() ==> (#[trigger] ps[i]).0 != code,
    ensures
        apply_postings(um, ps).contains_key(code) == um.contains_key(code),
        um.contains_key(code) ==> apply_postings(um, ps)[code] == um[code],
    decreases ps.len(),
{
    if ps.len() > 0 {
        assert forall|i: int| 0 <= i < ps.drop_last().len() implies (#[trigger] ps.drop_last()[i]).0 != code by {
            assert(ps.drop_last()[i] == ps[i]);
        }
        lemma_postings_untouched(um, ps.drop_last(), code);
        assert(ps.last() == ps[ps.len() - 1]);
    }
}

proof fn lemma_investment_codes(inv: EquityMethodInvestment)
    ensures
        forall|i: int| 0 <= i < investment_postings(inv).len() ==> (#[trigger] investment_postings(inv)[i]).0 != "3500"@,
{
    reveal_strlit("3500");
    reveal_strlit("1850");
    reveal_strlit("3300");
    reveal_strlit("4900");
    assert("1850"@[0] != "3500"@[0]);
    assert("3300"@[1] != "3500"@[1]);
    assert("4900"@[0] != "3500"@[0]);
    let ccv = inv.closing_carrying_value.units();
    let sop = inv.share_of_profit.units();
    let x: Seq<Posting> = if ccv != 0 {
        seq![("1850"@, ccv, 0int), ("3300"@, 0int, ccv)]
    } else {
        Seq::<Posting>::empty()
    };
    let y: Seq<Posting> = if sop != 0 {
        seq![("4900"@, 0int, sop), ("3300"@, sop, 0int)]
    } else {
        Seq::<Posting>::empty()
    };
    assert(investment_postings(inv) == x + y);
    assert forall|i: int| 0 <= i < (x + y).len() implies (#[trigger] (x + y)[i]).0 != "3500"@ by {
        if i < x.len() {
            assert((x + y)[i] == x[i]);
        } else {
            assert((x + y)[i] == y[i - x.len()]);
        }
    }
}

proof fn lemma_investments_avoid_nci(invs: Seq<EquityMethodInvestment>)
    ensures
        forall|i: int| 0 <= i < investments_postings(invs).len() ==> (#[trigger] investments_postings(invs)[i]).0 != "3500"@,
    decreases invs.len(),
{
    reveal_strlit("3500");
    reveal_strlit("1850");
    reveal_strlit("3300");
    reveal_strlit("4900");
    if invs.len() > 0 {
        lemma_investments_avoid_nci(invs.drop_last());
        let a = investments_postings(invs.drop_last());
        let b = investment_postings(invs.last());
        assert(investments_postings(invs) == a + b);
        assert forall|i: int| 0 <= i < (a + b).len() implies (#[trigger] (a + b)[i]).0 != "3500"@ by {
            if i < a.len() {
                assert((a + b)[i] == a[i]);
            } else {
                assert((a + b)[i] == b[i - a.len()]);
                lemma_investment_codes(invs.last());
            }
        }
    }
}

/// The overlay credits NCI equity: after it, the credit balance of account
/// `3500` has grown by exactly the rollforwards' closing NCI, summed.
pub proof fn law_overlay_credits_nci_equity(
    before: Seq<AggregatedAccount>,
    after: Seq<AggregatedAccount>,
    nci: Seq<NciRollforward>,
    invs: Seq<EquityMethodInvestment>,
)
    requires
        units_view(accounts_map(after)) == apply_postings(units_view(accounts_map(before)), overlay_postings(nci, invs)),
    ensures
        account_credit_balance(after, "3500"@) == account_credit_balance(before, "3500"@) + closing_nci_total(nci),
{
    reveal_strlit("3500");
    reveal_strlit("3300");
    assert("3300"@[1] != "3500"@[1]);
    let k = "3500"@;
    let um = units_view(accounts_map(before));
    let t = closing_nci_total(nci);
    let mid = apply_postings(um, nci_postings(t));
    lemma_postings_concat(um, nci_postings(t), investments_postings(invs));
    lemma_investments_avoid_nci(invs);
    lemma_postings_untouched(mid, investments_postings(invs), k);
    let fin = apply_postings(um, overlay_postings(nci, invs));
    assert(fin == apply_postings(mid, investments_postings(invs)));
    if t != 0 {
        let p = nci_postings(t);
        assert(p.drop_last() =~= seq![("3500"@, 0int, t)]);
        assert(p.drop_last().drop_last() =~= Seq::<Posting>::empty());
        let m1 = apply_postings(um, p.drop_last());
        assert(m1 == post_units(apply_postings(um, p.drop_last().drop_last()), k, 0, t));
        assert(mid == post_units(m1, "3300"@, t, 0));
        assert(mid.contains_key(k) && mid[k] == m1[k]);
    } else {
        assert(mid == um);
    }
    let va = units_view(accounts_map(after));
    assert(va.contains_key(k) == accounts_map(after).contains_key(k));
    assert(um.contains_key(k) == accounts_map(before).contains_key(k));
    if accounts_map(after).contains_key(k) {
        assert(va[k] == acct_units(accounts_map(after)[k]));
    }
    if accounts_map(before).contains_key(k) {
        assert(um[k] == acct_units(accounts_map(before)[k]));
    }
}

/// The overlay's postings balance: they leave `Σ debit - Σ credit` of the
/// trial balance unchanged.
pub proof fn lemma_overlay_balanced(nci: Seq<NciRollforward>, invs: Seq<EquityMethodInvestment>)
    ensures
        postings_balance(overlay_postings(nci, invs)) == 0,
{
    lemma_investments_balanced(invs);
    lemma_postings_concat(Map::empty(), nci_postings(closing_nci_total(nci)), investments_postings(invs));
    let t = closing_nci_total(nci);
    lemma_pair_abs(("3500"@, 0int, t), ("3300"@, t, 0int));
}

proof fn lemma_investments_balanced(invs: Seq<EquityMethodInvestment>)
    ensures
        postings_balance(investments_postings(invs)) == 0,
    decreases invs.len(),
{
    if invs.len() > 0 {
        lemma_investments_balanced(invs.drop_last());
        let inv = invs.last();
        let ccv = inv.closing_carrying_value.units();
        let sop = inv.share_of_profit.units();
        let a: Seq<Posting> = if ccv != 0 {
            seq![("1850"@, ccv, 0int), ("3300"@, 0int, ccv)]
        } else {
            Seq::empty()
        };
        let b: Seq<Posting> = if sop != 0 {
            seq![("4900"@, 0int, sop), ("3300"@, sop, 0int)]
        } else {
            Seq::empty()
        };
        lemma_postings_concat(Map::empty(), a, b);
        lemma_postings_concat(Map::empty(), investments_postings(invs.drop_last()), investment_postings(inv));
        lemma_pair_abs(("1850"@, ccv, 0int), ("3300"@, 0int, ccv));
        lemma_pair_abs(("4900"@, 0int, sop), ("3300"@, sop, 0int));
    }
}

proof fn lemma_investments_prefix(invs: Seq<EquityMethodInvestment>, k: int)
    requires
        0 <= k < invs.len(),
    ensures
        investments_postings(invs.take(k + 1)) == investments_postings(invs.take(k)) + investment_postings(invs[k]),
        postings_abs(investments_postings(invs.take(k + 1))) <= postings_abs(investments_postings(invs)),
        invs[k].closing_carrying_value.spec_scale() <= investments_scale(invs),
        invs[k].share_of_profit.spec_scale() <= investments_scale(invs),
    decreases invs.len() - k,
{
    assert(invs.take(k + 1).drop_last() =~= invs.take(k));
    assert(invs.take(k + 1).last() == invs[k]);
    if k + 1 < invs.len() {
        lemma_investments_prefix(invs, k + 1);
        lemma_postings_concat(Map::empty(), investments_postings(invs.take(k + 1)), investment_postings(invs[k + 1]));
    } else {
        assert(invs.take(k + 1) =~= invs);
    }
    lemma_investments_scale(invs, k);
}

proof fn lemma_investments_scale(invs: Seq<EquityMethodInvestment>, k: int)
    requires
        0 <= k < invs.len(),
    ensures
        invs[k].closing_carrying_value.spec_scale() <= investments_scale(invs),
        invs[k].share_of_profit.spec_scale() <= investments_scale(invs),
    decreases invs.len(),
{
    if k < invs.len() - 1 {
        lemma_investments_scale(invs.drop_last(), k);
    }
}

/// Post one posting whose magnitudes stay within the bound.
fn post_fixed(
    post: &mut AggregatedTb,
    code: &str,
    debit: Dec,
    credit: Dec,
    Ghost(b): Ghost<int>,
    Ghost(sc): Ghost<nat>,
    Ghost(start): Ghost<Seq<AggregatedAccount>>,
    Ghost(done): Ghost<Seq<Posting>>,
) -> (r: Result<(), GroupError>)
    requires
        accounts_sorted(old(post).account_totals@),
    ensures
        accounts_sorted(final(post).account_totals@),
        same_header(*old(post), *final(post)),
        final(post).total_debits == old(post).total_debits,
        final(post).total_credits == old(post).total_credits,
        ({
            &&& fits_at(b, sc)
            &&& units_view(accounts_map(old(post).account_totals@)) == apply_postings(units_view(accounts_map(start)), done)
            &&& accounts_abs_total(old(post).account_totals@) <= accounts_abs_total(start) + postings_abs(done)
            &&& accounts_abs_total(start) + postings_abs(done) + abs(debit.units()) + abs(credit.units()) <= b
            &&& accounts_max_scale(old(post).account_totals@) <= sc
            &&& debit.spec_scale() <= sc
            &&& credit.spec_scale() <= sc
        }) ==> {
            &&& r is Ok
            &&& units_view(accounts_map(final(post).account_totals@)) == apply_postings(
                units_view(accounts_map(start)),
                done.push((code@, debit.units(), credit.units())),
            )
            &&& accounts_abs_total(final(post).account_totals@) <= accounts_abs_total(start)
                + postings_abs(done.push((code@, debit.units(), credit.units())))
            &&& accounts_max_scale(final(post).account_totals@) <= sc
        },
{
    let ghost ps = done.push((code@, debit.units(), credit.units()));
    proof {
        assert(ps.drop_last() =~= done);
        if fits_at(b, sc) && accounts_abs_total(post.account_totals@) <= accounts_abs_total(start) + postings_abs(done)
            && accounts_abs_total(start) + postings_abs(done) + abs(debit.units()) + abs(credit.units()) <= b
            && accounts_max_scale(post.account_totals@) <= sc && debit.spec_scale() <= sc && credit.spec_scale() <= sc {
            lemma_posting_fits(post.account_totals@, code@, debit, credit, b, sc);
        }
    }
    apply_line_to_account(post, code, debit, credit)
}

/// The postings of `p`, unfolded: the magnitude of a two-line posting
/// pair.
proof fn lemma_pair_abs(x: Posting, y: Posting)
    ensures
        postings_abs(seq![x, y]) == abs(x.1) + abs(x.2) + abs(y.1) + abs(y.2),
        postings_abs(Seq::<Posting>::empty()) == 0,
        postings_balance(seq![x, y]) == x.1 - x.2 + y.1 - y.2,
        postings_balance(Seq::<Posting>::empty()) == 0,
{
    let s = seq![x, y];
    let e = Seq::<Posting>::empty();
    assert(s.drop_last() =~= seq![x]);
    assert(seq![x].drop_last() =~= e);
    assert(postings_abs(e) == 0);
    assert(postings_abs(seq![x]) == abs(x.1) + abs(x.2));
    assert(postings_balance(e) == 0);
    assert(postings_balance(seq![x]) == x.1 - x.2);
}

/// The ghost facts the overlay keeps while it posts: the accounts are the
/// start accounts after the postings done so far, within the bound.
pub open spec fn overlay_state(
    s: Seq<AggregatedAccount>,
    start: Seq<AggregatedAccount>,
    done: Seq<Posting>,
    sc: nat,
) -> bool {
    &&& units_view(accounts_map(s)) == apply_postings(units_view(accounts_map(start)), done)
    &&& accounts_abs_total(s) <= accounts_abs_total(start) + postings_abs(done)
    &&& accounts_max_scale(s) <= sc
}

/// Post the two lines of a pair `(code1, d1, c1)`, `(code2, d2, c2)`.
fn post_pair(
    post: &mut AggregatedTb,
    code1: &str,
    d1: Dec,
    c1: Dec,
    code2: &str,
    d2: Dec,
    c2: Dec,
    Ghost(b): Ghost<int>,
    Ghost(sc): Ghost<nat>,
    Ghost(start): Ghost<Seq<AggregatedAccount>>,
    Ghost(done): Ghost<Seq<Posting>>,
) -> (r: Result<(), GroupError>)
    requires
        accounts_sorted(old(post).account_totals@),
    ensures
        accounts_sorted(final(post).account_totals@),
        same_header(*old(post), *final(post)),
        final(post).total_debits == old(post).total_debits,
        final(post).total_credits == old(post).total_credits,
        ({
            &&& fits_at(b, sc)
            &&& overlay_state(old(post).account_totals@, start, done, sc)
            &&& accounts_abs_total(start) + postings_abs(done) + abs(d1.units()) + abs(c1.units())
                + abs(d2.units()) + abs(c2.units()) <= b
            &&& d1.spec_scale() <= sc
            &&& c1.spec_scale() <= sc
            &&& d2.spec_scale() <= sc
            &&& c2.spec_scale() <= sc
        }) ==> {
            &&& r is Ok
            &&& overlay_state(
                final(post).account_totals@,
                start,
                done + seq![(code1@, d1.units(), c1.units()), (code2@, d2.units(), c2.units())],
                sc,
            )
        },
{
    let ghost p1 = (code1@, d1.units(), c1.units());
    let ghost p2 = (code2@, d2.units(), c2.units());
    proof {
        lemma_pair_abs(p1, p2);
        assert(done.push(p1).drop_last() =~= done);
        assert((done + seq![p1, p2]) =~= done.push(p1).push(p2));
        lemma_postings_nonneg(done);
    }
    post_fixed(post, code1, d1, c1, Ghost(b), Ghost(sc), Ghost(start), Ghost(done))?;
    proof {
        assert(done.push(p1).push(p2).drop_last() =~= done.push(p1));
    }
    post_fixed(post, code2, d2, c2, Ghost(b), Ghost(sc), Ghost(start), Ghost(done.push(p1)))?;
    Ok(())
}

/// Post one investment's carrying value and share of profit.
fn post_investment(
    post: &mut AggregatedTb,
    inv: &EquityMethodInvestment,
    Ghost(b): Ghost<int>,
    Ghost(sc): Ghost<nat>,
    Ghost(start): Ghost<Seq<AggregatedAccount>>,
    Ghost(done): Ghost<Seq<Posting>>,
) -> (r: Result<(), GroupError>)
    requires
        accounts_sorted(old(post).account_totals@),
    ensures
        accounts_sorted(final(post).account_totals@),
        same_header(*old(post), *final(post)),
        final(post).total_debits == old(post).total_debits,
        final(post).total_credits == old(post).total_credits,
        ({
            &&& fits_at(b, sc)
            &&& overlay_state(old(post).account_totals@, start, done, sc)
            &&& accounts_abs_total(start) + postings_abs(done) + postings_abs(investment_postings(*inv)) <= b
            &&& inv.closing_carrying_value.spec_scale() <= sc
            &&& inv.share_of_profit.spec_scale() <= sc
        }) ==> {
            &&& r is Ok
            &&& overlay_state(final(post).account_totals@, start, done + investment_postings(*inv), sc)
        },
{
    let ghost ccv = inv.closing_carrying_value.units();
    let ghost sop = inv.share_of_profit.units();
    let ghost a: Seq<Posting> = if ccv != 0 {
        seq![("1850"@, ccv, 0int), ("3300"@, 0int, ccv)]
    } else {
        Seq::empty()
    };
    let ghost bb: Seq<Posting> = if sop != 0 {
        seq![("4900"@, 0int, sop), ("3300"@, sop, 0int)]
    } else {
        Seq::empty()
    };
    proof {
        lemma_postings_concat(Map::empty(), done, a);
        lemma_postings_concat(Map::empty(), a, bb);
        lemma_postings_concat(Map::empty(), done + a, bb);
        assert(done + a + bb =~= done + (a + bb));
        lemma_pair_abs(("1850"@, ccv, 0int), ("3300"@, 0int, ccv));
        lemma_pair_abs(("4900"@, 0int, sop), ("3300"@, sop, 0int));
        lemma_postings_nonneg(done);
        assert(done + Seq::<Posting>::empty() =~= done);
    }
    let zero = Dec::zero();
    if !inv.closing_carrying_value.is_zero() {
        post_pair(post, "1850", inv.closing_carrying_value, zero, "3300", zero, inv.closing_carrying_value,
            Ghost(b), Ghost(sc), Ghost(start), Ghost(done))?;
    }
    if !inv.share_of_profit.is_zero() {
        post_pair(post, "4900", zero, inv.share_of_profit, "3300", inv.share_of_profit, zero,
            Ghost(b), Ghost(sc), Ghost(start), Ghost(done + a))?;
    }
    Ok(())
}

/// A rollforward or an investment is in another currency than `currency`.
pub open spec fn overlay_foreign(
    nci: Seq<NciRollforward>,
    invs: Seq<EquityMethodInvestment>,
    currency: Seq<char>,
) -> bool {
    ||| exists|k: int| 0 <= k < nci.len() && (#[trigger] nci[k]).currency@ != currency
    ||| exists|k: int| 0 <= k < invs.len() && (#[trigger] invs[k]).currency@ != currency
}

/// Apply the NCI and equity-method overlay to a post-elimination trial
/// balance and recompute its totals.  `Err` when a rollforward or an
/// investment is in another currency than the trial balance, or when
/// `rust_decimal` reports an overflow (which [`overlay_fits`] rules out).
#[verifier::rlimit(80)]
pub fn apply_nci_and_equity_method(
    post_elim_tb: &AggregatedTb,
    nci_rollforwards: &[NciRollforward],
    equity_method_investments: &[EquityMethodInvestment],
) -> (r: Result<AggregatedTb, GroupError>)
    requires
        accounts_sorted(post_elim_tb.account_totals@),
    ensures
        overlay_foreign(nci_rollforwards@, equity_method_investments@, post_elim_tb.currency@) ==> r is Err,
        (!overlay_foreign(nci_rollforwards@, equity_method_investments@, post_elim_tb.currency@)
            && overlay_fits(post_elim_tb.account_totals@, nci_rollforwards@, equity_method_investments@))
            ==> r is Ok,
        r matches Ok(tb) ==> {
            &&& !overlay_foreign(nci_rollforwards@, equity_method_investments@, post_elim_tb.currency@)
            &&& same_header(*post_elim_tb, tb)
            &&& accounts_sorted(tb.account_totals@)
            &&& overlay_fits(post_elim_tb.account_totals@, nci_rollforwards@, equity_method_investments@) ==> {
                &&& units_view(accounts_map(tb.account_totals@)) == apply_postings(
                    units_view(accounts_map(post_elim_tb.account_totals@)),
                    overlay_postings(nci_rollforwards@, equity_method_investments@),
                )
                &&& tb.total_debits.units() == debit_sum(tb.account_totals@)
                &&& tb.total_credits.units() == credit_sum(tb.account_totals@)
            }
        },
{
    let ghost nci = nci_rollforwards@;
    let ghost invs = equity_method_investments@;
    let ghost start = post_elim_tb.account_totals@;
    let ghost fits = overlay_fits(start, nci, invs);
    let ghost b = accounts_abs_total(start) + 2 * closing_nci_abs(nci) + postings_abs(investments_postings(invs));
    let ghost sc = max_nat(accounts_max_scale(start), max_nat(closing_nci_scale(nci), investments_scale(invs)));
    // 1. Currency consistency.
    let mut k: usize = 0;
    while k < nci_rollforwards.len()
        invariant
            nci == nci_rollforwards@,
            k <= nci.len(),
            forall|m: int| 0 <= m < k ==> (#[trigger] nci[m]).currency@ == post_elim_tb.currency@,
        decreases nci_rollforwards.len() - k,
    {
        if !str_eq(nci_rollforwards[k].currency.as_str(), post_elim_tb.currency.as_str()) {
            return Err(GroupError::Aggregate("apply_nci_and_equity_method: NCI rollforward currency differs from the trial balance currency".to_string()));
        }
        k = k + 1;
    }
    let mut k2: usize = 0;
    while k2 < equity_method_investments.len()
        invariant
            invs == equity_method_investments@,
            k2 <= invs.len(),
            forall|m: int| 0 <= m < k2 ==> (#[trigger] invs[m]).currency@ == post_elim_tb.currency@,
        decreases equity_method_investments.len() - k2,
    {
        if !str_eq(equity_method_investments[k2].currency.as_str(), post_elim_tb.currency.as_str()) {
            return Err(GroupError::Aggregate("apply_nci_and_equity_method: equity-method investment currency differs from the trial balance currency".to_string()));
        }
        k2 = k2 + 1;
    }
    proof {
        lemma_abs_total_prefix(start, 0);
        lemma_postings_nonneg(investments_postings(invs));
        lemma_closing_nci_bounds(nci, 0);
        assert(apply_postings(units_view(accounts_map(start)), Seq::<Posting>::empty())
            == units_view(accounts_map(start)));
    }
    let mut overlay = post_elim_tb.duplicate();
    // 2. NCI reclassification.
    let mut total = Dec::zero();
    let mut j: usize = 0;
    while j < nci_rollforwards.len()
        invariant
            nci == nci_rollforwards@,
            invs == equity_method_investments@,
            start == post_elim_tb.account_totals@,
            j <= nci.len(),
            fits == overlay_fits(start, nci, invs),
            sc == max_nat(accounts_max_scale(start), max_nat(closing_nci_scale(nci), investments_scale(invs))),
            b == accounts_abs_total(start) + 2 * closing_nci_abs(nci) + postings_abs(investments_postings(invs)),
            0 <= accounts_abs_total(start),
            0 <= postings_abs(investments_postings(invs)),
            fits ==> {
                &&& total.units() == closing_nci_total(nci.take(j as int))
                &&& abs(total.units()) <= closing_nci_abs(nci.take(j as int))
                &&& total.spec_scale() <= sc
            },
        decreases nci_rollforwards.len() - j,
    {
        proof {
            lemma_closing_nci_bounds(nci, j as int);
            lemma_closing_nci_bounds(nci, j + 1);
            if fits {
                lemma_bounded_fits(
                    total.units() + nci[j as int].closing_nci.units(),
                    b,
                    sc,
                    max_nat(total.spec_scale(), nci[j as int].closing_nci.spec_scale()),
                );
            }
        }
        total = match dec_add(total, nci_rollforwards[j].closing_nci) {
            Some(x) => x,
            None => {
                return Err(GroupError::Aggregate("apply_nci_and_equity_method: NCI total overflows".to_string()));
            },
        };
        j = j + 1;
    }
    proof {
        assert(nci.take(j as int) =~= nci);
    }
    let ghost t = total.units();
    let zero = Dec::zero();
    if !total.is_zero() {
        post_pair(&mut overlay, "3500", zero, total, "3300", total, zero,
            Ghost(b), Ghost(sc), Ghost(start), Ghost(Seq::<Posting>::empty()))?;
        proof {
            assert(Seq::<Posting>::empty() + seq![("3500"@, 0int, t), ("3300"@, t, 0int)] =~= nci_postings(t));
        }
    }
    let ghost base = nci_postings(t);
    proof {
        lemma_pair_abs(("3500"@, 0int, t), ("3300"@, t, 0int));
        assert(investments_postings(invs.take(0)) =~= Seq::<Posting>::empty());
        assert(base + investments_postings(invs.take(0)) =~= base);
    }
    // 3. Equity-method investments.
    let mut m: usize = 0;
    while m < equity_method_investments.len()
        invariant
            invs == equity_method_investments@,
            nci == nci_rollforwards@,
            start == post_elim_tb.account_totals@,
            m <= invs.len(),
            accounts_sorted(overlay.account_totals@),
            same_header(*post_elim_tb, overlay),
            fits == overlay_fits(start, nci, invs),
            sc == max_nat(accounts_max_scale(start), max_nat(closing_nci_scale(nci), investments_scale(invs))),
            b == accounts_abs_total(start) + 2 * closing_nci_abs(nci) + postings_abs(investments_postings(invs)),
            base == nci_postings(t),
            fits ==> t == closing_nci_total(nci),
            fits ==> postings_abs(base) <= 2 * closing_nci_abs(nci),
            fits ==> overlay_state(overlay.account_totals@, start, base + investments_postings(invs.take(m as int)), sc),
        decreases equity_method_investments.len() - m,
    {
        proof {
            lemma_investments_prefix(invs, m as int);
            lemma_postings_concat(Map::empty(), base, investments_postings(invs.take(m as int)));
            lemma_postings_concat(Map::empty(), investments_postings(invs.take(m as int)), investment_postings(invs[m as int]));
            lemma_postings_concat(Map::empty(), base + investments_postings(invs.take(m as int)), investment_postings(invs[m as int]));
            assert(base + investments_postings(invs.take(m as int)) + investment_postings(invs[m as int])
                =~= base + investments_postings(invs.take(m + 1)));
        }
        post_investment(&mut overlay, &equity_method_investments[m], Ghost(b), Ghost(sc), Ghost(start),
            Ghost(base + investments_postings(invs.take(m as int))))?;
        m = m + 1;
    }
    proof {
        assert(invs.take(m as int) =~= invs);
        lemma_abs_total_prefix(overlay.account_totals@, 0);
        if fits {
            lemma_postings_concat(Map::empty(), base, investments_postings(invs));
            lemma_bounded_fits(accounts_abs_total(overlay.account_totals@), b, sc, accounts_max_scale(overlay.account_totals@));
        }
    }
    // 4. Totals.
    let (td, tc) = match recompute_totals(&overlay) {
        Some(x) => x,
        None => {
            return Err(GroupError::Aggregate("apply_nci_and_equity_method: totals overflow".to_string()));
        },
    };
    overlay.total_debits = td;
    overlay.total_credits = tc;
    verify_balance_invariant(&overlay)?;
    Ok(overlay)
}

proof fn lemma_closing_nci_bounds(s: Seq<NciRollforward>, j: int)
    requires
        0 <= j <= s.len(),
    ensures
        0 <= closing_nci_abs(s.take(j)) <= closing_nci_abs(s),
        j < s.len() ==> closing_nci_abs(s.take(j + 1)) == closing_nci_abs(s.take(j)) + abs(s[j].closing_nci.units()),
        j < s.len() ==> closing_nci_total(s.take(j + 1)) == closing_nci_total(s.take(j)) + s[j].closing_nci.units(),
        j < s.len() ==> s[j].closing_nci.spec_scale() <= closing_nci_scale(s),
    decreases s.len(),
{
    if j < s.len() {
        assert(s.take(j + 1).drop_last() =~= s.take(j));
        assert(s.take(j + 1).last() == s[j]);
    }
    if s.len() == 0 {
        assert(s.take(j) =~= s);
    } else if j == s.len() {
        assert(s.take(j) =~= s);
        lemma_closing_nci_bounds(s.drop_last(), 0);
    } else {
        lemma_closing_nci_bounds(s.drop_last(), j);
        assert(s.drop_last().take(j) =~= s.take(j));
        if j < s.len() - 1 {
            assert(s.drop_last()[j] == s[j]);
        }
    }
}

} // verus!
