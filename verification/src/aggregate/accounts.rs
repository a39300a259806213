//! The per-account totals of a consolidated trial balance.
//!
//! The totals are kept in a vector sorted strictly by account code (the
//! order a `BTreeMap<String, _>` walks its keys in), so every statement
//! built from them comes out in code order.  [`accounts_map`] is the view
//! of such a vector as a map from code to account.
use vstd::prelude::*;

use crate::dec::{abs, dec_add, dec_sub, fits_at, lemma_fits_coarser, max_nat, Dec};
use crate::errors::GroupError;
use crate::text::{
    lemma_seq_lt_irrefl, lemma_seq_lt_total, lemma_seq_lt_trans, seq_lt, str_eq, str_lt,
};

verus! {

/// Framework-aware account type carried on trial-balance lines.
#[derive(Debug, Clone, Copy, PartialEq, Eq, Structural)]
pub enum AccountType {
    Asset,
    ContraAsset,
    Liability,
    ContraLiability,
    Equity,
    ContraEquity,
    Revenue,
    Expense,
}

/// The account type an account gets when nothing says otherwise.
pub fn default_account_type() -> (r: AccountType)
    ensures
        r == AccountType::Asset,
{
    AccountType::Asset
}

/// Per-account aggregated balance.
#[derive(Debug, Clone)]
pub struct AggregatedAccount {
    pub account_code: String,
    pub debit_total: Dec,
    pub credit_total: Dec,
    /// `debit_total - credit_total`.
    pub net_balance: Dec,
    /// Number of contributing entities that posted to this account.
    pub contributing_entities: u32,
    pub account_type: AccountType,
}

impl AggregatedAccount {
    /// A field-by-field copy.
    pub fn duplicate(&self) -> (r: AggregatedAccount)
        ensures
            r == *self,
    {
        AggregatedAccount {
            account_code: self.account_code.clone(),
            debit_total: self.debit_total,
            credit_total: self.credit_total,
            net_balance: self.net_balance,
            contributing_entities: self.contributing_entities,
            account_type: self.account_type,
        }
    }
}

/// Codes strictly increasing along the vector.
pub open spec fn accounts_sorted(s: Seq<AggregatedAccount>) -> bool {
    forall|i: int, j: int|
        0 <= i < j < s.len() ==> seq_lt(#[trigger] s[i].account_code@, #[trigger] s[j].account_code@)
}

/// The accounts as a map from code to account.
pub open spec fn accounts_map(s: Seq<AggregatedAccount>) -> Map<Seq<char>, AggregatedAccount>
    decreases s.len(),
{
    if s.len() == 0 {
        Map::empty()
    } else {
        accounts_map(s.drop_last()).insert(s.last().account_code@, s.last())
    }
}

/// The account that posting to `code` starts from: the existing one, or a
/// fresh one of type `t` with zero balances.
pub open spec fn base_debit(s: Seq<AggregatedAccount>, code: Seq<char>) -> int {
    if accounts_map(s).contains_key(code) {
        accounts_map(s)[code].debit_total.units()
    } else {
        0
    }
}

pub open spec fn base_credit(s: Seq<AggregatedAccount>, code: Seq<char>) -> int {
    if accounts_map(s).contains_key(code) {
        accounts_map(s)[code].credit_total.units()
    } else {
        0
    }
}

/// `a` is `base` after a posting of `debit` and `credit`, all sums exact.
pub open spec fn posted_totals(a: AggregatedAccount, base_d: int, base_c: int, debit: Dec, credit: Dec) -> bool {
    &&& a.debit_total.units() == base_d + debit.units()
    &&& a.credit_total.units() == base_c + credit.units()
    &&& a.net_balance.units() == a.debit_total.units() - a.credit_total.units()
}

/// Scales of the existing balances of `code` (zero when absent).
pub open spec fn base_debit_scale(s: Seq<AggregatedAccount>, code: Seq<char>) -> nat {
    if accounts_map(s).contains_key(code) {
        accounts_map(s)[code].debit_total.spec_scale()
    } else {
        0
    }
}

pub open spec fn base_credit_scale(s: Seq<AggregatedAccount>, code: Seq<char>) -> nat {
    if accounts_map(s).contains_key(code) {
        accounts_map(s)[code].credit_total.spec_scale()
    } else {
        0
    }
}

/// A posting to `code` computes exactly: both new totals fit at the larger
/// scale of their operands, and so does the new net balance at the larger
/// of all four scales.
pub open spec fn posting_fits(s: Seq<AggregatedAccount>, code: Seq<char>, debit: Dec, credit: Dec) -> bool {
    let sd = max_nat(base_debit_scale(s, code), debit.spec_scale());
    let sc = max_nat(base_credit_scale(s, code), credit.spec_scale());
    let d = base_debit(s, code) + debit.units();
    let c = base_credit(s, code) + credit.units();
    &&& fits_at(d, sd)
    &&& fits_at(c, sc)
    &&& fits_at(d - c, max_nat(sd, sc))
}

/// Magnitude of an account's debit plus that of its credit, in units.
pub open spec fn abs_dc(a: AggregatedAccount) -> int {
    abs(a.debit_total.units()) + abs(a.credit_total.units())
}

/// Sum of [`abs_dc`] over the accounts: a bound on every signed sum of
/// their debits and credits.
pub open spec fn accounts_abs_total(s: Seq<AggregatedAccount>) -> int
    decreases s.len(),
{
    if s.len() == 0 {
        0
    } else {
        accounts_abs_total(s.drop_last()) + abs_dc(s.last())
    }
}

/// Largest scale among the accounts' debit and credit totals.
pub open spec fn accounts_max_scale(s: Seq<AggregatedAccount>) -> nat
    decreases s.len(),
{
    if s.len() == 0 {
        0
    } else {
        max_nat(
            accounts_max_scale(s.drop_last()),
            max_nat(s.last().debit_total.spec_scale(), s.last().credit_total.spec_scale()),
        )
    }
}

/// Replacing one account changes the bound by the difference of the two
/// accounts' magnitudes, and the largest scale by at most the new
/// account's scales.
pub proof fn lemma_abs_total_update(s: Seq<AggregatedAccount>, i: int, a: AggregatedAccount)
    requires
        0 <= i < s.len(),
    ensures
        accounts_abs_total(s.update(i, a)) == accounts_abs_total(s) - abs_dc(s[i]) + abs_dc(a),
        accounts_max_scale(s.update(i, a)) <= max_nat(
            accounts_max_scale(s),
            max_nat(a.debit_total.spec_scale(), a.credit_total.spec_scale()),
        ),
    decreases s.len(),
{
    let t = s.update(i, a);
    if i == s.len() - 1 {
        assert(t.drop_last() =~= s.drop_last());
    } else {
        assert(t.drop_last() =~= s.drop_last().update(i, a));
        lemma_abs_total_update(s.drop_last(), i, a);
    }
}

/// Inserting an account adds its magnitude to the bound.
pub proof fn lemma_abs_total_insert(s: Seq<AggregatedAccount>, i: int, a: AggregatedAccount)
    requires
        0 <= i <= s.len(),
    ensures
        accounts_abs_total(s.insert(i, a)) == accounts_abs_total(s) + abs_dc(a),
        accounts_max_scale(s.insert(i, a)) <= max_nat(
            accounts_max_scale(s),
            max_nat(a.debit_total.spec_scale(), a.credit_total.spec_scale()),
        ),
    decreases s.len(),
{
    let t = s.insert(i, a);
    if i == s.len() {
        assert(t.drop_last() =~= s);
    } else {
        assert(t.drop_last() =~= s.drop_last().insert(i, a));
        lemma_abs_total_insert(s.drop_last(), i, a);
    }
}

/// A prefix's bound lies between zero and the whole bound, and the bound
/// grows by one account at a time.
pub proof fn lemma_abs_total_prefix(s: Seq<AggregatedAccount>, i: int)
    requires
        0 <= i <= s.len(),
    ensures
        0 <= accounts_abs_total(s.take(i)) <= accounts_abs_total(s),
        i < s.len() ==> accounts_abs_total(s.take(i + 1)) == accounts_abs_total(s.take(i))
            + abs_dc(s[i]),
        accounts_max_scale(s.take(i)) <= accounts_max_scale(s),
        i < s.len() ==> s[i].debit_total.spec_scale() <= accounts_max_scale(s),
        i < s.len() ==> s[i].credit_total.spec_scale() <= accounts_max_scale(s),
    decreases s.len(),
{
    if i < s.len() {
        assert(s.take(i + 1).drop_last() =~= s.take(i));
        assert(s.take(i + 1).last() == s[i]);
    }
    if s.len() == 0 {
        assert(s.take(i) =~= s);
    } else if i == s.len() {
        assert(s.take(i) =~= s);
        lemma_abs_total_prefix(s.drop_last(), 0);
    } else {
        lemma_abs_total_prefix(s.drop_last(), i);
        assert(s.drop_last().take(i) =~= s.take(i));
        if i < s.len() - 1 {
            assert(s.drop_last()[i] == s[i]);
        }
    }
}

pub proof fn lemma_map_contains_iff(s: Seq<AggregatedAccount>, code: Seq<char>)
    ensures
        accounts_map(s).contains_key(code) <==> exists|i: int|
            0 <= i < s.len() && #[trigger] s[i].account_code@ == code,
    decreases s.len(),
{
    if s.len() > 0 {
        lemma_map_contains_iff(s.drop_last(), code);
        if accounts_map(s.drop_last()).contains_key(code) {
            let i = choose|i: int| 0 <= i < s.drop_last().len() && #[trigger] s.drop_last()[i].account_code@ == code;
            assert(s[i].account_code@ == code);
        }
        if exists|i: int| 0 <= i < s.len() && #[trigger] s[i].account_code@ == code {
            let i = choose|i: int| 0 <= i < s.len() && #[trigger] s[i].account_code@ == code;
            if i < s.len() - 1 {
                assert(s.drop_last()[i].account_code@ == code);
            }
        }
    }
}

/// In a sorted vector, the map entry of the code at index `i` is `s[i]`.
pub proof fn lemma_map_at(s: Seq<AggregatedAccount>, i: int)
    requires
        accounts_sorted(s),
        0 <= i < s.len(),
    ensures
        accounts_map(s).contains_key(s[i].account_code@),
        accounts_map(s)[s[i].account_code@] == s[i],
    decreases s.len(),
{
    if i == s.len() - 1 {
    } else {
        assert(accounts_sorted(s.drop_last()));
        lemma_map_at(s.drop_last(), i);
        assert(seq_lt(s[i].account_code@, s.last().account_code@));
        lemma_seq_lt_irrefl(s[i].account_code@);
    }
}

/// Replacing the account at `i` by one with the same code updates the map
/// at that code only.
pub proof fn lemma_map_update(s: Seq<AggregatedAccount>, i: int, a: AggregatedAccount)
    requires
        accounts_sorted(s),
        0 <= i < s.len(),
        a.account_code@ == s[i].account_code@,
    ensures
        accounts_sorted(s.update(i, a)),
        accounts_map(s.update(i, a)) == accounts_map(s).insert(a.account_code@, a),
    decreases s.len(),
{
    let t = s.update(i, a);
    assert forall|p: int, q: int| 0 <= p < q < t.len() implies seq_lt(
        #[trigger] t[p].account_code@,
        #[trigger] t[q].account_code@,
    ) by {
        assert(seq_lt(s[p].account_code@, s[q].account_code@));
    }
    if i == s.len() - 1 {
        assert(t.drop_last() =~= s.drop_last());
        assert(accounts_map(t) =~= accounts_map(s).insert(a.account_code@, a));
    } else {
        assert(t.drop_last() =~= s.drop_last().update(i, a));
        assert(accounts_sorted(s.drop_last()));
        lemma_map_update(s.drop_last(), i, a);
        assert(seq_lt(s[i].account_code@, s.last().account_code@));
        lemma_seq_lt_irrefl(s[i].account_code@);
        assert(accounts_map(t) =~= accounts_map(s).insert(a.account_code@, a));
    }
}

/// Inserting an account whose code sorts between its neighbours keeps the
/// vector sorted and adds exactly that code to the map.
pub proof fn lemma_map_insert(s: Seq<AggregatedAccount>, i: int, a: AggregatedAccount)
    requires
        accounts_sorted(s),
        0 <= i <= s.len(),
        forall|j: int| 0 <= j < i ==> seq_lt(#[trigger] s[j].account_code@, a.account_code@),
        forall|j: int| i <= j < s.len() ==> seq_lt(a.account_code@, #[trigger] s[j].account_code@),
    ensures
        accounts_sorted(s.insert(i, a)),
        accounts_map(s.insert(i, a)) == accounts_map(s).insert(a.account_code@, a),
    decreases s.len(),
{
    let t = s.insert(i, a);
    assert forall|p: int, q: int| 0 <= p < q < t.len() implies seq_lt(
        #[trigger] t[p].account_code@,
        #[trigger] t[q].account_code@,
    ) by {
        if q < i {
            assert(seq_lt(s[p].account_code@, s[q].account_code@));
        } else if q == i {
        } else if p < i {
            assert(seq_lt(s[p].account_code@, s[q - 1].account_code@));
        } else if p == i {
        } else {
            assert(seq_lt(s[p - 1].account_code@, s[q - 1].account_code@));
        }
    }
    if i == s.len() {
        assert(t.drop_last() =~= s);
    } else {
        assert(t.drop_last() =~= s.drop_last().insert(i, a));
        assert(accounts_sorted(s.drop_last()));
        lemma_map_insert(s.drop_last(), i, a);
        assert(seq_lt(a.account_code@, s.last().account_code@));
        lemma_seq_lt_irrefl(a.account_code@);
        assert(accounts_map(t) =~= accounts_map(s).insert(a.account_code@, a));
    }
}

/// Position of `code` in a sorted vector: the first index whose code does
/// not sort before `code`, and whether that index holds `code` itself.
pub fn find_account(accts: &Vec<AggregatedAccount>, code: &str) -> (r: (bool, usize))
    requires
        accounts_sorted(accts@),
    ensures
        r.1 <= accts@.len(),
        forall|j: int| 0 <= j < r.1 ==> seq_lt(#[trigger] accts@[j].account_code@, code@),
        forall|j: int| r.1 <= j < accts@.len() ==> !seq_lt(#[trigger] accts@[j].account_code@, code@),
        r.0 <==> (r.1 < accts@.len() && accts@[r.1 as int].account_code@ == code@),
        r.0 <==> accounts_map(accts@).contains_key(code@),
        !r.0 ==> forall|j: int| r.1 <= j < accts@.len() ==> seq_lt(code@, #[trigger] accts@[j].account_code@),
{
    let mut i: usize = 0;
    while i < accts.len()
        invariant
            i <= accts@.len(),
            accounts_sorted(accts@),
            forall|j: int| 0 <= j < i ==> seq_lt(#[trigger] accts@[j].account_code@, code@),
        ensures
            i <= accts@.len(),
            forall|j: int| 0 <= j < i ==> seq_lt(#[trigger] accts@[j].account_code@, code@),
            i < accts@.len() ==> !seq_lt(accts@[i as int].account_code@, code@),
        decreases accts.len() - i,
    {
        if !str_lt(accts[i].account_code.as_str(), code) {
            break;
        }
        i = i + 1;
    }
    let found = i < accts.len() && str_eq(accts[i].account_code.as_str(), code);
    proof {
        assert forall|j: int| i <= j < accts@.len() implies !seq_lt(#[trigger] accts@[j].account_code@, code@) by {
            if j > i {
                assert(seq_lt(accts@[i as int].account_code@, accts@[j].account_code@));
                if seq_lt(accts@[j].account_code@, code@) {
                    lemma_seq_lt_trans(accts@[i as int].account_code@, accts@[j].account_code@, code@);
                }
            }
        }
        if !found {
            assert forall|j: int| i <= j < accts@.len() implies seq_lt(code@, #[trigger] accts@[j].account_code@) by {
                if j == i {
                    lemma_seq_lt_total(accts@[j].account_code@, code@);
                } else {
                    lemma_seq_lt_total(accts@[i as int].account_code@, code@);
                    assert(seq_lt(accts@[i as int].account_code@, accts@[j].account_code@));
                    lemma_seq_lt_trans(code@, accts@[i as int].account_code@, accts@[j].account_code@);
                }
            }
        }
        lemma_map_contains_iff(accts@, code@);
        if accounts_map(accts@).contains_key(code@) {
            let k = choose|k: int| 0 <= k < accts@.len() && #[trigger] accts@[k].account_code@ == code@;
            if k < i {
                lemma_seq_lt_irrefl(code@);
            } else if !found {
                lemma_seq_lt_irrefl(code@);
            }
        }
    }
    (found, i)
}

/// Post `debit` and `credit` to the account `code`, creating it with zero
/// balances and type `new_type` when absent.  Returns the account's index.
/// The contributing-entity count of an existing account is kept; a new
/// account starts at zero.  `Err` when a sum overflows.
pub fn post_to_account(
    accts: &mut Vec<AggregatedAccount>,
    code: &String,
    debit: Dec,
    credit: Dec,
    new_type: AccountType,
) -> (r: Result<usize, GroupError>)
    requires
        accounts_sorted(old(accts)@),
    ensures
        accounts_sorted(final(accts)@),
        posting_fits(old(accts)@, code@, debit, credit) ==> r is Ok,
        r is Err ==> final(accts)@ == old(accts)@ && r matches Err(GroupError::Aggregate(_)),
        r matches Ok(i) ==> {
            &&& 0 <= i < final(accts)@.len()
            &&& final(accts)@[i as int].account_code@ == code@
            &&& posting_fits(old(accts)@, code@, debit, credit) ==> posted_totals(
                final(accts)@[i as int],
                base_debit(old(accts)@, code@),
                base_credit(old(accts)@, code@),
                debit,
                credit,
            )
            &&& accounts_map(final(accts)@) == accounts_map(old(accts)@).insert(
                code@,
                final(accts)@[i as int],
            )
            &&& posting_fits(old(accts)@, code@, debit, credit)
                ==> final(accts)@[i as int].debit_total.spec_scale() <= max_nat(
                base_debit_scale(old(accts)@, code@),
                debit.spec_scale(),
            )
            &&& posting_fits(old(accts)@, code@, debit, credit)
                ==> final(accts)@[i as int].credit_total.spec_scale() <= max_nat(
                base_credit_scale(old(accts)@, code@),
                credit.spec_scale(),
            )
            &&& accounts_map(old(accts)@).contains_key(code@)
                ==> final(accts)@ == old(accts)@.update(i as int, final(accts)@[i as int])
            &&& accounts_map(old(accts)@).contains_key(code@) ==> i < old(accts)@.len()
                && old(accts)@[i as int].account_code@ == code@
            &&& !accounts_map(old(accts)@).contains_key(code@)
                ==> final(accts)@ == old(accts)@.insert(i as int, final(accts)@[i as int])
            &&& accounts_map(old(accts)@).contains_key(code@) ==> {
                &&& final(accts)@.len() == old(accts)@.len()
                &&& final(accts)@[i as int].contributing_entities == accounts_map(
                    old(accts)@,
                )[code@].contributing_entities
                &&& final(accts)@[i as int].account_type == accounts_map(
                    old(accts)@,
                )[code@].account_type
            }
            &&& !accounts_map(old(accts)@).contains_key(code@) ==> {
                &&& final(accts)@.len() == old(accts)@.len() + 1
                &&& final(accts)@[i as int].contributing_entities == 0
                &&& final(accts)@[i as int].account_type == new_type
            }
        },
{
    let (found, i) = find_account(accts, code.as_str());
    let (base_d, base_c, count, kind) = if found {
        (accts[i].debit_total, accts[i].credit_total, accts[i].contributing_entities, accts[i].account_type)
    } else {
        (Dec::zero(), Dec::zero(), 0u32, new_type)
    };
    proof {
        if found {
            lemma_map_at(accts@, i as int);
        }
    }
    let d = match dec_add(base_d, debit) {
        Some(x) => x,
        None => {
            return Err(GroupError::Aggregate("account posting: debit total overflows".to_string()));
        },
    };
    let c = match dec_add(base_c, credit) {
        Some(x) => x,
        None => {
            return Err(GroupError::Aggregate("account posting: credit total overflows".to_string()));
        },
    };
    proof {
        if posting_fits(accts@, code@, debit, credit) {
            let sd = max_nat(base_debit_scale(accts@, code@), debit.spec_scale());
            let sc = max_nat(base_credit_scale(accts@, code@), credit.spec_scale());
            lemma_fits_coarser(d.units() - c.units(), max_nat(sd, sc), max_nat(d.spec_scale(), c.spec_scale()));
        }
    }
    let net = match dec_sub(d, c) {
        Some(x) => x,
        None => {
            return Err(GroupError::Aggregate("account posting: net balance overflows".to_string()));
        },
    };
    let acct = AggregatedAccount {
        account_code: code.clone(),
        debit_total: d,
        credit_total: c,
        net_balance: net,
        contributing_entities: count,
        account_type: kind,
    };
    if found {
        proof {
            lemma_map_update(accts@, i as int, acct);
        }
        accts.set(i, acct);
    } else {
        proof {
            lemma_map_insert(accts@, i as int, acct);
        }
        accts.insert(i, acct);
    }
    Ok(i)
}

} // verus!
