//! The pre-elimination aggregated trial balance: the sum of the parent's
//! and the fully consolidated subsidiaries' trial balances, with the
//! entities held back for special-method consolidation listed aside.
use vstd::prelude::*;
use vstd::string::*;

use crate::aggregate::accounts::{
    abs_dc, accounts_abs_total, accounts_map, accounts_max_scale, accounts_sorted, base_credit_scale,
    base_debit_scale, lemma_abs_total_prefix, lemma_abs_total_update, lemma_map_at, lemma_map_update,
    post_to_account, lemma_abs_total_insert, AccountType, AggregatedAccount,
};
use crate::aggregate::post_elim::{acct_units, lemma_posting_fits, units_view};
use crate::config::ConsolidationMethod;
use crate::date::Date;
use crate::dec::{abs, dec_add, fits_at, lemma_bounded_fits, max_nat, Dec};
use crate::errors::GroupError;
use crate::manifest::builder::{GroupManifest, ManifestEntity};
use crate::sorted_map::{key_sorted, sm_find, sm_map, sm_sorted, sm_upsert, sort_keyed};
use crate::manifest::coa_master::string_views;
use crate::text::{seq_lt, str_eq};
use vstd::multiset::Multiset;

verus! {

/// One line of an entity's trial balance.
#[derive(Debug, Clone)]
pub struct TrialBalanceLine {
    pub account_code: String,
    pub account_type: AccountType,
    pub debit_balance: Dec,
    pub credit_balance: Dec,
}

/// An entity's standalone trial balance.
#[derive(Debug, Clone)]
pub struct TrialBalance {
    pub company_code: String,
    pub currency: String,
    pub as_of_date: Date,
    pub lines: Vec<TrialBalanceLine>,
    pub total_debits: Dec,
    pub total_credits: Dec,
}

/// Pre-elimination aggregated trial balance.
#[derive(Debug, Clone)]
pub struct AggregatedTb {
    pub group_id: String,
    /// Presentation currency.
    pub currency: String,
    /// Period end date the aggregation is as of.
    pub as_of_date: Date,
    /// Per-account totals, sorted strictly by account code
    /// (`accounts_sorted`: the functions that build one ensure it, those
    /// that rely on it require it).
    pub account_totals: Vec<AggregatedAccount>,
    /// Entity codes whose trial balances were summed in.
    pub contributing_entities: Vec<String>,
    /// Entities held back for special-method consolidation.
    pub deferred_entities: Vec<DeferredEntity>,
    pub total_debits: Dec,
    pub total_credits: Dec,
}

/// An entity held back from the parent / full aggregation.
#[derive(Debug, Clone)]
pub struct DeferredEntity {
    pub entity_code: String,
    pub method: ConsolidationMethod,
}

impl DeferredEntity {
    /// A field-by-field copy.
    pub fn duplicate(&self) -> (r: DeferredEntity)
        ensures
            r == *self,
    {
        DeferredEntity { entity_code: self.entity_code.clone(), method: self.method }
    }
}

/// A copy of a list of strings.
pub fn copy_strings(v: &Vec<String>) -> (r: Vec<String>)
    ensures
        r@ == v@,
{
    let mut out: Vec<String> = Vec::new();
    let mut i: usize = 0;
    while i < v.len()
        invariant
            i <= v@.len(),
            out@ == v@.take(i as int),
        decreases v.len() - i,
    {
        out.push(v[i].clone());
        proof {
            assert(out@ =~= v@.take(i + 1));
        }
        i = i + 1;
    }
    proof {
        assert(v@.take(i as int) =~= v@);
    }
    out
}

impl AggregatedTb {
    /// A field-by-field copy.
    pub fn duplicate(&self) -> (r: AggregatedTb)
        ensures
            r.group_id == self.group_id,
            r.currency == self.currency,
            r.as_of_date == self.as_of_date,
            r.account_totals@ == self.account_totals@,
            r.contributing_entities@ == self.contributing_entities@,
            r.deferred_entities@ == self.deferred_entities@,
            r.total_debits == self.total_debits,
            r.total_credits == self.total_credits,
    {
        let mut accts: Vec<AggregatedAccount> = Vec::new();
        let mut i: usize = 0;
        while i < self.account_totals.len()
            invariant
                i <= self.account_totals@.len(),
                accts@ == self.account_totals@.take(i as int),
            decreases self.account_totals.len() - i,
        {
            accts.push(self.account_totals[i].duplicate());
            proof {
                assert(accts@ =~= self.account_totals@.take(i + 1));
            }
            i = i + 1;
        }
        let mut deferred: Vec<DeferredEntity> = Vec::new();
        let mut j: usize = 0;
        while j < self.deferred_entities.len()
            invariant
                j <= self.deferred_entities@.len(),
                deferred@ == self.deferred_entities@.take(j as int),
            decreases self.deferred_entities.len() - j,
        {
            deferred.push(self.deferred_entities[j].duplicate());
            proof {
                assert(deferred@ =~= self.deferred_entities@.take(j + 1));
            }
            j = j + 1;
        }
        proof {
            assert(self.account_totals@.take(i as int) =~= self.account_totals@);
            assert(self.deferred_entities@.take(j as int) =~= self.deferred_entities@);
        }
        AggregatedTb {
            group_id: self.group_id.clone(),
            currency: self.currency.clone(),
            as_of_date: self.as_of_date,
            account_totals: accts,
            contributing_entities: copy_strings(&self.contributing_entities),
            deferred_entities: deferred,
            total_debits: self.total_debits,
            total_credits: self.total_credits,
        }
    }
}

/// An account in units after a trial-balance posting: an absent account
/// starts from zero with the line's account type.
pub open spec fn post_typed(
    um: Map<Seq<char>, (int, int, int, u32, AccountType)>,
    code: Seq<char>,
    d: int,
    c: int,
    t: AccountType,
) -> Map<Seq<char>, (int, int, int, u32, AccountType)> {
    let base = if um.contains_key(code) {
        um[code]
    } else {
        (0int, 0int, 0int, 0u32, t)
    };
    um.insert(code, (base.0 + d, base.1 + c, (base.0 + d) - (base.1 + c), base.3, base.4))
}

/// Post every line of a trial balance, in order.
pub open spec fn apply_tb_lines(
    um: Map<Seq<char>, (int, int, int, u32, AccountType)>,
    lines: Seq<TrialBalanceLine>,
) -> Map<Seq<char>, (int, int, int, u32, AccountType)>
    decreases lines.len(),
{
    if lines.len() == 0 {
        um
    } else {
        let l = lines.last();
        post_typed(apply_tb_lines(um, lines.drop_last()), l.account_code@, l.debit_balance.units(), l.credit_balance.units(), l.account_type)
    }
}

/// The codes a trial balance posts to.
pub open spec fn tb_codes(lines: Seq<TrialBalanceLine>) -> Set<Seq<char>> {
    Set::new(|c: Seq<char>| exists|j: int| 0 <= j < lines.len() && (#[trigger] lines[j]).account_code@ == c)
}

/// One more contributing entity for every code of `codes`.
pub open spec fn bump(
    um: Map<Seq<char>, (int, int, int, u32, AccountType)>,
    codes: Set<Seq<char>>,
) -> Map<Seq<char>, (int, int, int, u32, AccountType)> {
    Map::new(
        |k: Seq<char>| um.contains_key(k),
        |k: Seq<char>| if codes.contains(k) {
            (um[k].0, um[k].1, um[k].2, (um[k].3 + 1) as u32, um[k].4)
        } else {
            um[k]
        },
    )
}

/// Accumulating an entity's trial balance: its lines posted, and each
/// account it touched counted once more.
pub open spec fn accumulate_spec(
    um: Map<Seq<char>, (int, int, int, u32, AccountType)>,
    lines: Seq<TrialBalanceLine>,
) -> Map<Seq<char>, (int, int, int, u32, AccountType)> {
    bump(apply_tb_lines(um, lines), tb_codes(lines))
}

/// Sum of the magnitudes of the lines' debits and credits.
pub open spec fn tb_lines_abs(lines: Seq<TrialBalanceLine>) -> int
    decreases lines.len(),
{
    if lines.len() == 0 {
        0
    } else {
        tb_lines_abs(lines.drop_last()) + abs(lines.last().debit_balance.units()) + abs(lines.last().credit_balance.units())
    }
}

/// Largest scale among the lines' debits and credits.
pub open spec fn tb_lines_scale(lines: Seq<TrialBalanceLine>) -> nat
    decreases lines.len(),
{
    if lines.len() == 0 {
        0
    } else {
        max_nat(tb_lines_scale(lines.drop_last()), max_nat(lines.last().debit_balance.spec_scale(), lines.last().credit_balance.spec_scale()))
    }
}

pub proof fn lemma_tb_lines_prefix(lines: Seq<TrialBalanceLine>, j: int)
    requires
        0 <= j < lines.len(),
    ensures
        tb_lines_abs(lines.take(j + 1)) == tb_lines_abs(lines.take(j)) + abs(lines[j].debit_balance.units())
            + abs(lines[j].credit_balance.units()),
        tb_lines_abs(lines.take(j + 1)) <= tb_lines_abs(lines),
        0 <= tb_lines_abs(lines.take(j)),
        lines[j].debit_balance.spec_scale() <= tb_lines_scale(lines),
        lines[j].credit_balance.spec_scale() <= tb_lines_scale(lines),
    decreases lines.len(),
{
    assert(lines.take(j + 1).drop_last() =~= lines.take(j));
    assert(lines.take(j + 1).last() == lines[j]);
    if j == lines.len() - 1 {
        assert(lines.take(j + 1) =~= lines);
        if j > 0 {
            lemma_tb_lines_prefix(lines.drop_last(), j - 1);
            assert(lines.drop_last().take(j) =~= lines.take(j));
        } else {
            assert(lines.take(0) =~= Seq::<TrialBalanceLine>::empty());
        }
    } else {
        lemma_tb_lines_prefix(lines.drop_last(), j);
        assert(lines.drop_last().take(j) =~= lines.take(j));
        assert(lines.drop_last().take(j + 1) =~= lines.take(j + 1));
    }
}

/// Accumulating a trial balance computes exactly and no count overflows.
pub open spec fn accumulate_fits(s: Seq<AggregatedAccount>, tb: TrialBalance) -> bool {
    &&& fits_at(accounts_abs_total(s) + tb_lines_abs(tb.lines@), max_nat(accounts_max_scale(s), tb_lines_scale(tb.lines@)))
    &&& forall|k: int| 0 <= k < s.len() ==> (#[trigger] s[k]).contributing_entities < u32::MAX
}

/// The accumulation state after some lines: posted lines, touched codes
/// counted, touched set kept.
pub open spec fn acc_state(
    s: Seq<AggregatedAccount>,
    um0: Map<Seq<char>, (int, int, int, u32, AccountType)>,
    lines: Seq<TrialBalanceLine>,
    touched: Seq<(String, ())>,
) -> bool {
    &&& units_view(accounts_map(s)) == accumulate_spec(um0, lines)
    &&& sm_map(touched).dom() == tb_codes(lines)
}

proof fn lemma_accumulate_step(
    a: Map<Seq<char>, (int, int, int, u32, AccountType)>,
    lines: Seq<TrialBalanceLine>,
    l: TrialBalanceLine,
)
    ensures
        apply_tb_lines(a, lines.push(l)) == post_typed(apply_tb_lines(a, lines), l.account_code@, l.debit_balance.units(), l.credit_balance.units(), l.account_type),
        tb_codes(lines.push(l)) == tb_codes(lines).insert(l.account_code@),
{
    assert(lines.push(l).drop_last() =~= lines);
    assert forall|c: Seq<char>| #[trigger] tb_codes(lines.push(l)).contains(c) == tb_codes(lines).insert(l.account_code@).contains(c) by {
        if tb_codes(lines).contains(c) {
            let j = choose|j: int| 0 <= j < lines.len() && (#[trigger] lines[j]).account_code@ == c;
            assert(lines.push(l)[j] == lines[j]);
        }
        if tb_codes(lines.push(l)).contains(c) {
            let j = choose|j: int| 0 <= j < lines.push(l).len() && (#[trigger] lines.push(l)[j]).account_code@ == c;
            if j < lines.len() {
                assert(lines[j] == lines.push(l)[j]);
            }
        }
        if c == l.account_code@ {
            assert(lines.push(l)[lines.len() as int] == l);
        }
    }
    assert(tb_codes(lines.push(l)) =~= tb_codes(lines).insert(l.account_code@));
}

proof fn lemma_apply_tb_dom(um: Map<Seq<char>, (int, int, int, u32, AccountType)>, lines: Seq<TrialBalanceLine>)
    ensures
        forall|c: Seq<char>| #[trigger] apply_tb_lines(um, lines).contains_key(c) <==> (um.contains_key(c) || tb_codes(lines).contains(c)),
    decreases lines.len(),
{
    if lines.len() > 0 {
        lemma_apply_tb_dom(um, lines.drop_last());
        assert(lines.drop_last().push(lines.last()) =~= lines);
        lemma_accumulate_step(um, lines.drop_last(), lines.last());
    } else {
        assert forall|c: Seq<char>| !#[trigger] tb_codes(lines).contains(c) by {}
    }
}

/// Posting a code not yet touched, then counting it.
proof fn lemma_bump_new(um0: Map<Seq<char>, (int, int, int, u32, AccountType)>, lines: Seq<TrialBalanceLine>, l: TrialBalanceLine)
    requires
        !tb_codes(lines).contains(l.account_code@),
    ensures
        ({
            let a = apply_tb_lines(um0, lines);
            let s = tb_codes(lines);
            let p = post_typed(bump(a, s), l.account_code@, l.debit_balance.units(), l.credit_balance.units(), l.account_type);
            let e = p[l.account_code@];
            accumulate_spec(um0, lines.push(l)) == p.insert(l.account_code@, (e.0, e.1, e.2, (e.3 + 1) as u32, e.4))
        }),
{
    lemma_accumulate_step(um0, lines, l);
    let a = apply_tb_lines(um0, lines);
    let s = tb_codes(lines);
    let p = post_typed(bump(a, s), l.account_code@, l.debit_balance.units(), l.credit_balance.units(), l.account_type);
    let e = p[l.account_code@];
    assert(accumulate_spec(um0, lines.push(l)) =~= p.insert(l.account_code@, (e.0, e.1, e.2, (e.3 + 1) as u32, e.4)));
}

/// Posting a code already touched.
proof fn lemma_bump_touched(um0: Map<Seq<char>, (int, int, int, u32, AccountType)>, lines: Seq<TrialBalanceLine>, l: TrialBalanceLine)
    requires
        tb_codes(lines).contains(l.account_code@),
    ensures
        accumulate_spec(um0, lines.push(l)) == post_typed(
            bump(apply_tb_lines(um0, lines), tb_codes(lines)),
            l.account_code@,
            l.debit_balance.units(),
            l.credit_balance.units(),
            l.account_type,
        ),
{
    lemma_accumulate_step(um0, lines, l);
    lemma_apply_tb_dom(um0, lines);
    let a = apply_tb_lines(um0, lines);
    let s = tb_codes(lines);
    assert(s.insert(l.account_code@) =~= s);
    assert(accumulate_spec(um0, lines.push(l)) =~= post_typed(bump(a, s), l.account_code@, l.debit_balance.units(), l.credit_balance.units(), l.account_type));
}

/// `new` is `old` with one entity's trial balance added (`ok` when the
/// addition succeeded): the lines posted, each touched account counted
/// once more, the trial-balance totals added and the entity recorded.
/// The amounts are exact wherever the sums fit.
pub open spec fn tb_accumulated(old: AggregatedTb, new: AggregatedTb, code: Seq<char>, tb: TrialBalance, ok: bool) -> bool {
    &&& accounts_sorted(new.account_totals@)
    &&& new.group_id == old.group_id
    &&& new.currency == old.currency
    &&& new.as_of_date == old.as_of_date
    &&& new.deferred_entities@ == old.deferred_entities@
    &&& ok ==> new.contributing_entities@.len() == old.contributing_entities@.len() + 1
        && new.contributing_entities@.last()@ == code
        && new.contributing_entities@.drop_last() == old.contributing_entities@
    &&& accumulate_fits(old.account_totals@, tb) ==> {
        &&& units_view(accounts_map(new.account_totals@)) == accumulate_spec(
            units_view(accounts_map(old.account_totals@)),
            tb.lines@,
        )
        &&& accounts_abs_total(new.account_totals@) <= accounts_abs_total(old.account_totals@) + tb_lines_abs(tb.lines@)
        &&& accounts_max_scale(new.account_totals@) <= max_nat(accounts_max_scale(old.account_totals@), tb_lines_scale(tb.lines@))
        &&& (crate::dec::fits_sum(old.total_debits, tb.total_debits, old.total_debits.units() + tb.total_debits.units())
            && crate::dec::fits_sum(old.total_credits, tb.total_credits, old.total_credits.units() + tb.total_credits.units()))
            ==> {
            &&& ok
            &&& new.total_debits.units() == old.total_debits.units() + tb.total_debits.units()
            &&& new.total_credits.units() == old.total_credits.units() + tb.total_credits.units()
            &&& new.total_debits.spec_scale() <= max_nat(old.total_debits.spec_scale(), tb.total_debits.spec_scale())
            &&& new.total_credits.spec_scale() <= max_nat(old.total_credits.spec_scale(), tb.total_credits.spec_scale())
        }
    }
}

/// Add one entity's trial balance into the totals: every line posted
/// (a new account takes the line's type), each touched account counted
/// once, the trial-balance totals added, the entity recorded.
fn accumulate_tb(agg: &mut AggregatedTb, entity_code: &str, tb: &TrialBalance) -> (r: Result<(), GroupError>)
    requires
        accounts_sorted(old(agg).account_totals@),
    ensures
        tb_accumulated(*old(agg), *final(agg), entity_code@, *tb, r is Ok),
        r is Err ==> r matches Err(GroupError::Aggregate(_)),
{
    let ghost s0 = agg.account_totals@;
    let ghost um0 = units_view(accounts_map(s0));
    let ghost lines = tb.lines@;
    let ghost fits = accumulate_fits(s0, *tb);
    let ghost b = accounts_abs_total(s0) + tb_lines_abs(lines);
    let ghost sc = max_nat(accounts_max_scale(s0), tb_lines_scale(lines));
    let mut touched: Vec<(String, ())> = Vec::new();
    let mut j: usize = 0;
    proof {
        assert(lines.take(0) =~= Seq::<TrialBalanceLine>::empty());
        assert(tb_codes(Seq::<TrialBalanceLine>::empty()) =~= Set::empty());
        assert(sm_map(touched@).dom() =~= Set::empty());
        assert(accumulate_spec(um0, Seq::<TrialBalanceLine>::empty()) =~= um0);
        lemma_abs_total_prefix(s0, 0);
    }
    while j < tb.lines.len()
        invariant
            lines == tb.lines@,
            j <= lines.len(),
            accounts_sorted(agg.account_totals@),
            agg.group_id == old(agg).group_id,
            agg.currency == old(agg).currency,
            agg.as_of_date == old(agg).as_of_date,
            agg.deferred_entities@ == old(agg).deferred_entities@,
            agg.contributing_entities@ == old(agg).contributing_entities@,
            agg.total_debits == old(agg).total_debits,
            agg.total_credits == old(agg).total_credits,
            s0 == old(agg).account_totals@,
            um0 == units_view(accounts_map(s0)),
            fits == accumulate_fits(s0, *tb),
            b == accounts_abs_total(s0) + tb_lines_abs(lines),
            sc == max_nat(accounts_max_scale(s0), tb_lines_scale(lines)),
            sm_sorted(touched@),
            fits ==> {
                &&& acc_state(agg.account_totals@, um0, lines.take(j as int), touched@)
                &&& accounts_abs_total(agg.account_totals@) <= accounts_abs_total(s0) + tb_lines_abs(lines.take(j as int))
                &&& accounts_max_scale(agg.account_totals@) <= sc
                &&& forall|k: int| 0 <= k < agg.account_totals@.len() ==> ((#[trigger] agg.account_totals@[k]).contributing_entities
                    < u32::MAX || sm_map(touched@).contains_key(agg.account_totals@[k].account_code@))
            },
        decreases tb.lines.len() - j,
    {
        let l = &tb.lines[j];
        proof {
            lemma_tb_lines_prefix(lines, j as int);
            assert(lines.take(j + 1) =~= lines.take(j as int).push(lines[j as int]));
            lemma_accumulate_step(um0, lines.take(j as int), lines[j as int]);
            lemma_abs_total_prefix(agg.account_totals@, 0);
            if fits {
                lemma_posting_fits(agg.account_totals@, l.account_code@, l.debit_balance, l.credit_balance, b, sc);
            }
        }
        let ghost before = agg.account_totals@;
        let ghost t0 = touched@;
        let (tfound, _ti) = sm_find(&touched, l.account_code.as_str());
        let i = match post_to_account(&mut agg.account_totals, &l.account_code, l.debit_balance, l.credit_balance, l.account_type) {
            Ok(i) => i,
            Err(e) => {
                return Err(e);
            },
        };
        let ghost after = agg.account_totals@;
        proof {
            if fits {
                let a = after[i as int];
                if accounts_map(before).contains_key(l.account_code@) {
                    lemma_abs_total_update(before, i as int, a);
                    lemma_map_at(before, i as int);
                } else {
                    lemma_abs_total_insert(before, i as int, a);
                }
                lemma_apply_tb_dom(um0, lines.take(j as int));
                let bb = units_view(accounts_map(before));
                assert(units_view(accounts_map(after)) =~= post_typed(bb, l.account_code@, l.debit_balance.units(), l.credit_balance.units(), l.account_type));
            }
        }
        if !tfound {
            let mut a = agg.account_totals[i].duplicate();
            proof {
                if fits {
                    if accounts_map(before).contains_key(l.account_code@) {
                        assert(before[i as int].account_code@ == l.account_code@);
                        assert(!sm_map(t0).contains_key(before[i as int].account_code@));
                        assert(before[i as int].contributing_entities < u32::MAX);
                    }
                }
            }
            if a.contributing_entities == u32::MAX {
                return Err(GroupError::Aggregate("aggregate_pre_elimination: contributing-entity count overflows".to_string()));
            }
            a.contributing_entities = a.contributing_entities + 1;
            let ghost a0 = after[i as int];
            proof {
                lemma_map_update(after, i as int, a);
                lemma_abs_total_update(after, i as int, a);
            }
            agg.account_totals.set(i, a);
            sm_upsert(&mut touched, l.account_code.clone(), ());
            proof {
                if fits {
                    lemma_bump_new(um0, lines.take(j as int), lines[j as int]);
                    assert(units_view(accounts_map(agg.account_totals@)) =~= units_view(accounts_map(after)).insert(
                        l.account_code@,
                        acct_units(a),
                    ));
                    assert forall|k: int| 0 <= k < agg.account_totals@.len() implies ((#[trigger] agg.account_totals@[k]).contributing_entities
                        < u32::MAX || sm_map(touched@).contains_key(agg.account_totals@[k].account_code@)) by {
                        if k != i {
                            if accounts_map(before).contains_key(l.account_code@) {
                                assert(agg.account_totals@[k] == before[k]);
                            } else if k < i {
                                assert(agg.account_totals@[k] == before[k]);
                            } else {
                                assert(agg.account_totals@[k] == before[k - 1]);
                            }
                        }
                    }
                }
            }
        } else {
            proof {
                if fits {
                    lemma_bump_touched(um0, lines.take(j as int), lines[j as int]);
                    assert forall|k: int| 0 <= k < agg.account_totals@.len() implies ((#[trigger] agg.account_totals@[k]).contributing_entities
                        < u32::MAX || sm_map(touched@).contains_key(agg.account_totals@[k].account_code@)) by {
                        if accounts_map(before).contains_key(l.account_code@) {
                            if k != i {
                                assert(agg.account_totals@[k] == before[k]);
                            }
                        } else if k < i {
                            assert(agg.account_totals@[k] == before[k]);
                        } else if k > i {
                            assert(agg.account_totals@[k] == before[k - 1]);
                        }
                    }
                }
            }
        }
        proof {
            if fits {
                assert(sm_map(touched@).dom() =~= tb_codes(lines.take(j + 1)));
            }
        }
        j = j + 1;
    }
    proof {
        assert(lines.take(j as int) =~= lines);
    }
    let td = match dec_add(agg.total_debits, tb.total_debits) {
        Some(x) => x,
        None => {
            return Err(GroupError::Aggregate("aggregate_pre_elimination: total debits overflow".to_string()));
        },
    };
    let tc = match dec_add(agg.total_credits, tb.total_credits) {
        Some(x) => x,
        None => {
            return Err(GroupError::Aggregate("aggregate_pre_elimination: total credits overflow".to_string()));
        },
    };
    agg.total_debits = td;
    agg.total_credits = tc;
    let ghost ce = agg.contributing_entities@;
    agg.contributing_entities.push(entity_code.to_string());
    proof {
        assert(agg.contributing_entities@.drop_last() =~= ce);
    }
    Ok(())
}


/// The consolidation method of the first manifest entity carrying `code`.
pub open spec fn entity_method(es: Seq<ManifestEntity>, code: Seq<char>) -> Option<ConsolidationMethod>
    decreases es.len(),
{
    if es.len() == 0 {
        None
    } else if es[0].code@ == code {
        Some(es[0].consolidation_method)
    } else {
        entity_method(es.subrange(1, es.len() as int), code)
    }
}

/// Parent and fully consolidated entities are summed line by line.
/// The message of a trial balance in another currency than the
/// presentation currency: the entity, its currency and the expected one.
pub open spec fn currency_mismatch_text(code: Seq<char>, tb_currency: Seq<char>, presentation: Seq<char>) -> Seq<char> {
    "aggregate_pre_elimination: entity `"@ + code + "` has trial balance currency "@ + tb_currency
        + " but the presentation currency is "@ + presentation
}

/// Every summed entry is in the presentation currency `pc`.
pub open spec fn currencies_match(es: Seq<ManifestEntity>, entries: Seq<(String, TrialBalance)>, pc: Seq<char>) -> bool {
    forall|i: int| #![trigger entries[i]] 0 <= i < entries.len() && summed_entry(es, entries[i]) ==> entries[i].1.currency@
        == pc
}

/// The entry's entity is in the manifest and summed line by line.
pub open spec fn summed_entry(es: Seq<ManifestEntity>, e: (String, TrialBalance)) -> bool {
    entity_method(es, e.0@) is Some && is_summed(entity_method(es, e.0@)->0)
}

pub open spec fn is_summed(m: ConsolidationMethod) -> bool {
    m == ConsolidationMethod::Parent || m == ConsolidationMethod::Full
}

/// The consolidation method of `entity_code` in the manifest's ownership
/// graph; an error naming the code when no entity carries it.
fn lookup_consolidation_method(manifest: &GroupManifest, entity_code: &str) -> (r: Result<ConsolidationMethod, GroupError>)
    ensures
        match entity_method(manifest.ownership_graph.entities@, entity_code@) {
            Some(m) => r == Ok::<ConsolidationMethod, GroupError>(m),
            None => r matches Err(GroupError::Aggregate(_)),
        },
{
    let es = &manifest.ownership_graph.entities;
    let mut i: usize = 0;
    proof {
        assert(es@.subrange(0, es@.len() as int) =~= es@);
    }
    while i < es.len()
        invariant
            i <= es@.len(),
            es@ == manifest.ownership_graph.entities@,
            entity_method(es@, entity_code@) == entity_method(es@.subrange(i as int, es@.len() as int), entity_code@),
        decreases es.len() - i,
    {
        proof {
            let t = es@.subrange(i as int, es@.len() as int);
            assert(t[0] == es@[i as int]);
            assert(t.subrange(1, t.len() as int) =~= es@.subrange(i + 1, es@.len() as int));
        }
        if str_eq(es[i].code.as_str(), entity_code) {
            proof {
                let t = es@.subrange(i as int, es@.len() as int);
                assert(t.len() > 0 && t[0].code@ == entity_code@);
                assert(entity_method(t, entity_code@) == Some(t[0].consolidation_method));
            }
            return Ok(es[i].consolidation_method);
        }
        i = i + 1;
    }
    let msg = "aggregate_pre_elimination: entity `".to_string().concat(entity_code).concat("` not in manifest");
    Err(GroupError::Aggregate(msg))
}

/// A deferred entity as code and method.
pub open spec fn deferred_view(d: DeferredEntity) -> (Seq<char>, ConsolidationMethod) {
    (d.entity_code@, d.method)
}

pub open spec fn deferred_views_of(v: Seq<DeferredEntity>) -> Seq<(Seq<char>, ConsolidationMethod)> {
    v.map_values(|d: DeferredEntity| deferred_view(d))
}

impl crate::sorted_map::SortKey for DeferredEntity {
    open spec fn sort_key(&self) -> Seq<char> {
        self.entity_code@
    }

    fn key_str(&self) -> (r: &str) {
        self.entity_code.as_str()
    }
}

/// Every entry's code is in the manifest.
pub open spec fn all_known(es: Seq<ManifestEntity>, entries: Seq<(String, TrialBalance)>) -> bool {
    forall|i: int| 0 <= i < entries.len() ==> (#[trigger] entity_method(es, entries[i].0@)) is Some
}

/// The entry at the end is summed line by line.
pub open spec fn last_summed(es: Seq<ManifestEntity>, entries: Seq<(String, TrialBalance)>) -> bool {
    let m = entity_method(es, entries.last().0@);
    m is Some && is_summed(m->0)
}

/// The account totals, in units, after each summed entry is accumulated
/// in turn.
pub open spec fn pre_elim_fold(es: Seq<ManifestEntity>, entries: Seq<(String, TrialBalance)>) -> Map<
    Seq<char>,
    (int, int, int, u32, AccountType),
>
    decreases entries.len(),
{
    if entries.len() == 0 {
        Map::empty()
    } else if last_summed(es, entries) {
        accumulate_spec(pre_elim_fold(es, entries.drop_last()), entries.last().1.lines@)
    } else {
        pre_elim_fold(es, entries.drop_last())
    }
}

/// The codes of the summed entries, in input order.
pub open spec fn summed_codes(es: Seq<ManifestEntity>, entries: Seq<(String, TrialBalance)>) -> Seq<Seq<char>>
    decreases entries.len(),
{
    if entries.len() == 0 {
        Seq::empty()
    } else if last_summed(es, entries) {
        summed_codes(es, entries.drop_last()).push(entries.last().0@)
    } else {
        summed_codes(es, entries.drop_last())
    }
}

/// The known entries that are not summed, as code and method, in input
/// order.
pub open spec fn deferred_entries(es: Seq<ManifestEntity>, entries: Seq<(String, TrialBalance)>) -> Seq<(Seq<char>, ConsolidationMethod)>
    decreases entries.len(),
{
    if entries.len() == 0 {
        Seq::empty()
    } else {
        let m = entity_method(es, entries.last().0@);
        if m is Some && !is_summed(m->0) {
            deferred_entries(es, entries.drop_last()).push((entries.last().0@, m->0))
        } else {
            deferred_entries(es, entries.drop_last())
        }
    }
}

/// Sum of the summed entries' total debits, in units.
pub open spec fn summed_debits(es: Seq<ManifestEntity>, entries: Seq<(String, TrialBalance)>) -> int
    decreases entries.len(),
{
    if entries.len() == 0 {
        0
    } else if last_summed(es, entries) {
        summed_debits(es, entries.drop_last()) + entries.last().1.total_debits.units()
    } else {
        summed_debits(es, entries.drop_last())
    }
}

/// Sum of the summed entries' total credits, in units.
pub open spec fn summed_credits(es: Seq<ManifestEntity>, entries: Seq<(String, TrialBalance)>) -> int
    decreases entries.len(),
{
    if entries.len() == 0 {
        0
    } else if last_summed(es, entries) {
        summed_credits(es, entries.drop_last()) + entries.last().1.total_credits.units()
    } else {
        summed_credits(es, entries.drop_last())
    }
}

/// Sum of the magnitudes of every entry's line amounts.
pub open spec fn entries_lines_abs(entries: Seq<(String, TrialBalance)>) -> int
    decreases entries.len(),
{
    if entries.len() == 0 {
        0
    } else {
        entries_lines_abs(entries.drop_last()) + tb_lines_abs(entries.last().1.lines@)
    }
}

/// Largest scale among every entry's line amounts.
pub open spec fn entries_lines_scale(entries: Seq<(String, TrialBalance)>) -> nat
    decreases entries.len(),
{
    if entries.len() == 0 {
        0
    } else {
        max_nat(entries_lines_scale(entries.drop_last()), tb_lines_scale(entries.last().1.lines@))
    }
}

/// Sum of the magnitudes of the entries' total debits and credits.
pub open spec fn entries_totals_abs(entries: Seq<(String, TrialBalance)>) -> int
    decreases entries.len(),
{
    if entries.len() == 0 {
        0
    } else {
        entries_totals_abs(entries.drop_last()) + abs(entries.last().1.total_debits.units()) + abs(
            entries.last().1.total_credits.units(),
        )
    }
}

/// Largest scale among the entries' total debits and credits.
pub open spec fn entries_totals_scale(entries: Seq<(String, TrialBalance)>) -> nat
    decreases entries.len(),
{
    if entries.len() == 0 {
        0
    } else {
        max_nat(
            entries_totals_scale(entries.drop_last()),
            max_nat(entries.last().1.total_debits.spec_scale(), entries.last().1.total_credits.spec_scale()),
        )
    }
}

/// Every sum of the aggregation is exact and no count overflows: the
/// magnitudes of all the amounts together fit at their largest scale.
pub open spec fn pre_elim_fits(entries: Seq<(String, TrialBalance)>) -> bool {
    &&& entries.len() < u32::MAX
    &&& fits_at(entries_lines_abs(entries), entries_lines_scale(entries))
    &&& fits_at(entries_totals_abs(entries), entries_totals_scale(entries))
}

proof fn lemma_tb_lines_nonneg(lines: Seq<TrialBalanceLine>)
    ensures
        tb_lines_abs(lines) >= 0,
    decreases lines.len(),
{
    if lines.len() > 0 {
        lemma_tb_lines_nonneg(lines.drop_last());
    }
}

proof fn lemma_entries_prefix(entries: Seq<(String, TrialBalance)>, j: int)
    requires
        0 <= j < entries.len(),
    ensures
        entries_lines_abs(entries.take(j + 1)) == entries_lines_abs(entries.take(j)) + tb_lines_abs(entries[j].1.lines@),
        entries_lines_abs(entries.take(j + 1)) <= entries_lines_abs(entries),
        0 <= entries_lines_abs(entries.take(j)),
        tb_lines_scale(entries[j].1.lines@) <= entries_lines_scale(entries),
        entries_totals_abs(entries.take(j + 1)) == entries_totals_abs(entries.take(j)) + abs(entries[j].1.total_debits.units())
            + abs(entries[j].1.total_credits.units()),
        entries_totals_abs(entries.take(j + 1)) <= entries_totals_abs(entries),
        0 <= entries_totals_abs(entries.take(j)),
        entries[j].1.total_debits.spec_scale() <= entries_totals_scale(entries),
        entries[j].1.total_credits.spec_scale() <= entries_totals_scale(entries),
    decreases entries.len(),
{
    assert(entries.take(j + 1).drop_last() =~= entries.take(j));
    assert(entries.take(j + 1).last() == entries[j]);
    lemma_tb_lines_nonneg(entries[j].1.lines@);
    if j == entries.len() - 1 {
        assert(entries.take(j + 1) =~= entries);
        if j > 0 {
            lemma_entries_prefix(entries.drop_last(), j - 1);
            lemma_tb_lines_nonneg(entries[j - 1].1.lines@);
            assert(entries.drop_last().take(j) =~= entries.take(j));
            assert(entries.drop_last().take(j) =~= entries.drop_last());
        } else {
            assert(entries.take(0) =~= Seq::<(String, TrialBalance)>::empty());
        }
    } else {
        lemma_entries_prefix(entries.drop_last(), j);
        assert(entries.drop_last().take(j) =~= entries.take(j));
        assert(entries.drop_last().take(j + 1) =~= entries.take(j + 1));
        lemma_tb_lines_nonneg(entries.last().1.lines@);
    }
}

/// Every account counted by at most `n` entities.
pub open spec fn counts_at_most(s: Seq<AggregatedAccount>, n: int) -> bool {
    forall|k: int| 0 <= k < s.len() ==> (#[trigger] s[k]).contributing_entities <= n
}

pub open spec fn map_counts_at_most(um: Map<Seq<char>, (int, int, int, u32, AccountType)>, n: int) -> bool {
    forall|c: Seq<char>| um.contains_key(c) ==> #[trigger] um[c].3 <= n
}

proof fn lemma_apply_counts(um: Map<Seq<char>, (int, int, int, u32, AccountType)>, lines: Seq<TrialBalanceLine>, n: int)
    requires
        map_counts_at_most(um, n),
        n >= 0,
    ensures
        map_counts_at_most(apply_tb_lines(um, lines), n),
    decreases lines.len(),
{
    if lines.len() > 0 {
        lemma_apply_counts(um, lines.drop_last(), n);
    }
}

/// Accumulating one trial balance raises no account's count by more than one.
proof fn lemma_counts_after(old_s: Seq<AggregatedAccount>, new_s: Seq<AggregatedAccount>, lines: Seq<TrialBalanceLine>, n: int)
    requires
        accounts_sorted(old_s),
        accounts_sorted(new_s),
        units_view(accounts_map(new_s)) == accumulate_spec(units_view(accounts_map(old_s)), lines),
        counts_at_most(old_s, n),
        0 <= n < u32::MAX,
    ensures
        counts_at_most(new_s, n + 1),
{
    let um0 = units_view(accounts_map(old_s));
    assert forall|c: Seq<char>| um0.contains_key(c) implies #[trigger] um0[c].3 <= n by {
        crate::aggregate::accounts::lemma_map_contains_iff(old_s, c);
        let i = choose|i: int| 0 <= i < old_s.len() && #[trigger] old_s[i].account_code@ == c;
        lemma_map_at(old_s, i);
    }
    lemma_apply_counts(um0, lines, n);
    let a = apply_tb_lines(um0, lines);
    let codes = tb_codes(lines);
    assert forall|k: int| 0 <= k < new_s.len() implies (#[trigger] new_s[k]).contributing_entities <= n + 1 by {
        lemma_map_at(new_s, k);
        let c = new_s[k].account_code@;
        assert(units_view(accounts_map(new_s))[c].3 == new_s[k].contributing_entities);
        assert(bump(a, codes).contains_key(c));
        assert(a.contains_key(c));
        assert(a[c].3 <= n);
        if codes.contains(c) {
            let v: int = a[c].3 + 1;
            assert(0 <= v <= u32::MAX);
            assert(bump(a, codes)[c].3 == (v as u32));
            assert((v as u32) as int == v);
        } else {
            assert(bump(a, codes)[c].3 == a[c].3);
        }
    }
}

/// An empty aggregate for the manifest's group, presentation currency and
/// period end.
pub fn empty_aggregate(manifest: &GroupManifest) -> (r: AggregatedTb)
    ensures
        r.group_id == manifest.group_id,
        r.currency == manifest.presentation_currency,
        r.as_of_date == manifest.period.end,
        r.account_totals@.len() == 0,
        r.contributing_entities@.len() == 0,
        r.deferred_entities@.len() == 0,
        r.total_debits.units() == 0,
        r.total_credits.units() == 0,
        r.total_debits.spec_scale() == 0,
        r.total_credits.spec_scale() == 0,
{
    AggregatedTb {
        group_id: manifest.group_id.clone(),
        currency: manifest.presentation_currency.clone(),
        as_of_date: manifest.period.end,
        account_totals: Vec::new(),
        contributing_entities: Vec::new(),
        deferred_entities: Vec::new(),
        total_debits: Dec::zero(),
        total_credits: Dec::zero(),
    }
}

/// Accumulate one entity's trial balance into the aggregate: a parent or
/// fully consolidated entity is summed in, another known entity is held
/// back as deferred, and an unknown code is an error that leaves the
/// aggregate as it was.
pub fn accumulate_entity_into_aggregate(
    agg: &mut AggregatedTb,
    manifest: &GroupManifest,
    entity_code: &str,
    tb: &TrialBalance,
) -> (r: Result<(), GroupError>)
    requires
        accounts_sorted(old(agg).account_totals@),
    ensures
        accounts_sorted(final(agg).account_totals@),
        r is Err ==> r matches Err(GroupError::Aggregate(_)),
        match entity_method(manifest.ownership_graph.entities@, entity_code@) {
            None => r is Err && *final(agg) == *old(agg),
            Some(m) => if is_summed(m) {
                if tb.currency@ != manifest.presentation_currency@ {
                    &&& r matches Err(GroupError::Aggregate(msg)) && msg@ == currency_mismatch_text(
                        entity_code@,
                        tb.currency@,
                        manifest.presentation_currency@,
                    )
                    &&& *final(agg) == *old(agg)
                } else {
                    tb_accumulated(*old(agg), *final(agg), entity_code@, *tb, r is Ok)
                }
            } else {
                &&& r is Ok
                &&& final(agg).group_id == old(agg).group_id
                &&& final(agg).currency == old(agg).currency
                &&& final(agg).as_of_date == old(agg).as_of_date
                &&& final(agg).account_totals@ == old(agg).account_totals@
                &&& final(agg).contributing_entities@ == old(agg).contributing_entities@
                &&& final(agg).total_debits == old(agg).total_debits
                &&& final(agg).total_credits == old(agg).total_credits
                &&& final(agg).deferred_entities@.len() == old(agg).deferred_entities@.len() + 1
                &&& final(agg).deferred_entities@.drop_last() == old(agg).deferred_entities@
                &&& deferred_view(final(agg).deferred_entities@.last()) == (entity_code@, m)
            },
        },
{
    let method = match lookup_consolidation_method(manifest, entity_code) {
        Ok(m) => m,
        Err(e) => {
            return Err(e);
        },
    };
    match method {
        ConsolidationMethod::Parent | ConsolidationMethod::Full => {
            if !str_eq(tb.currency.as_str(), manifest.presentation_currency.as_str()) {
                let msg = "aggregate_pre_elimination: entity `".to_string().concat(entity_code).concat(
                    "` has trial balance currency ",
                ).concat(tb.currency.as_str()).concat(" but the presentation currency is ").concat(
                    manifest.presentation_currency.as_str(),
                );
                proof {
                    reveal_strlit("aggregate_pre_elimination: entity `");
                    reveal_strlit("` has trial balance currency ");
                    reveal_strlit(" but the presentation currency is ");
                }
                return Err(GroupError::Aggregate(msg));
            }
            accumulate_tb(agg, entity_code, tb)
        },
        ConsolidationMethod::EquityMethod | ConsolidationMethod::Proportional | ConsolidationMethod::FairValue => {
            let ghost d0 = agg.deferred_entities@;
            agg.deferred_entities.push(DeferredEntity { entity_code: entity_code.to_string(), method });
            proof {
                assert(agg.deferred_entities@.drop_last() =~= d0);
            }
            Ok(())
        },
    }
}

/// Sort the contributing and the deferred entities by entity code, once a
/// streaming walk is done; nothing else changes.
pub fn finalise_streaming_aggregate(agg: &mut AggregatedTb)
    ensures
        final(agg).group_id == old(agg).group_id,
        final(agg).currency == old(agg).currency,
        final(agg).as_of_date == old(agg).as_of_date,
        final(agg).account_totals@ == old(agg).account_totals@,
        final(agg).total_debits == old(agg).total_debits,
        final(agg).total_credits == old(agg).total_credits,
        key_sorted(final(agg).contributing_entities@),
        final(agg).contributing_entities@.to_multiset() == old(agg).contributing_entities@.to_multiset(),
        key_sorted(final(agg).deferred_entities@),
        final(agg).deferred_entities@.to_multiset() == old(agg).deferred_entities@.to_multiset(),
{
    let mut c: Vec<String> = Vec::new();
    std::mem::swap(&mut c, &mut agg.contributing_entities);
    agg.contributing_entities = sort_keyed(c);
    let mut d: Vec<DeferredEntity> = Vec::new();
    std::mem::swap(&mut d, &mut agg.deferred_entities);
    agg.deferred_entities = sort_keyed(d);
}

/// Aggregate `(entity code, trial balance)` pairs into the
/// pre-elimination group trial balance.  Parent and fully consolidated
/// entities are summed; equity-method, proportional and fair-value
/// entities are held back as deferred; both lists come out sorted by
/// entity code.  An entity code missing from the manifest is an error.
pub fn aggregate_pre_elimination(manifest: &GroupManifest, entity_tbs: &[(String, TrialBalance)]) -> (r: Result<
    AggregatedTb,
    GroupError,
>)
    ensures
        r is Err ==> r matches Err(GroupError::Aggregate(_)),
        !all_known(manifest.ownership_graph.entities@, entity_tbs@) ==> r is Err,
        all_known(manifest.ownership_graph.entities@, entity_tbs@) && !currencies_match(
            manifest.ownership_graph.entities@,
            entity_tbs@,
            manifest.presentation_currency@,
        ) ==> r is Err,
        all_known(manifest.ownership_graph.entities@, entity_tbs@) && currencies_match(
            manifest.ownership_graph.entities@,
            entity_tbs@,
            manifest.presentation_currency@,
        ) && pre_elim_fits(entity_tbs@) ==> r is Ok,
        r matches Ok(agg) ==> {
            let es = manifest.ownership_graph.entities@;
            &&& agg.group_id == manifest.group_id
            &&& agg.currency == manifest.presentation_currency
            &&& agg.as_of_date == manifest.period.end
            &&& accounts_sorted(agg.account_totals@)
            &&& key_sorted(agg.contributing_entities@)
            &&& string_views(agg.contributing_entities@).to_multiset() == summed_codes(es, entity_tbs@).to_multiset()
            &&& key_sorted(agg.deferred_entities@)
            &&& deferred_views_of(agg.deferred_entities@).to_multiset() == deferred_entries(es, entity_tbs@).to_multiset()
            &&& pre_elim_fits(entity_tbs@) ==> {
                &&& units_view(accounts_map(agg.account_totals@)) == pre_elim_fold(es, entity_tbs@)
                &&& agg.total_debits.units() == summed_debits(es, entity_tbs@)
                &&& agg.total_credits.units() == summed_credits(es, entity_tbs@)
            }
        },
{
    let ghost es = manifest.ownership_graph.entities@;
    let ghost all = entity_tbs@;
    let ghost fits = pre_elim_fits(all);
    let mut agg = empty_aggregate(manifest);
    let mut i: usize = 0;
    proof {
        assert(all.take(0) =~= Seq::<(String, TrialBalance)>::empty());
        assert(string_views(agg.contributing_entities@) =~= Seq::<Seq<char>>::empty());
        assert(deferred_views_of(agg.deferred_entities@) =~= Seq::<(Seq<char>, ConsolidationMethod)>::empty());
        assert(units_view(accounts_map(agg.account_totals@)) =~= Map::empty());
    }
    while i < entity_tbs.len()
        invariant
            i <= all.len(),
            all == entity_tbs@,
            es == manifest.ownership_graph.entities@,
            fits == pre_elim_fits(all),
            accounts_sorted(agg.account_totals@),
            agg.group_id == manifest.group_id,
            agg.currency == manifest.presentation_currency,
            agg.as_of_date == manifest.period.end,
            all_known(es, all.take(i as int)),
            currencies_match(es, all.take(i as int), manifest.presentation_currency@),
            string_views(agg.contributing_entities@) == summed_codes(es, all.take(i as int)),
            deferred_views_of(agg.deferred_entities@) == deferred_entries(es, all.take(i as int)),
            fits ==> {
                &&& units_view(accounts_map(agg.account_totals@)) == pre_elim_fold(es, all.take(i as int))
                &&& accounts_abs_total(agg.account_totals@) <= entries_lines_abs(all.take(i as int))
                &&& accounts_max_scale(agg.account_totals@) <= entries_lines_scale(all)
                &&& counts_at_most(agg.account_totals@, i as int)
                &&& agg.total_debits.units() == summed_debits(es, all.take(i as int))
                &&& agg.total_credits.units() == summed_credits(es, all.take(i as int))
                &&& abs(agg.total_debits.units()) + abs(agg.total_credits.units()) <= entries_totals_abs(all.take(i as int))
                &&& agg.total_debits.spec_scale() <= entries_totals_scale(all)
                &&& agg.total_credits.spec_scale() <= entries_totals_scale(all)
            },
        decreases all.len() - i,
    {
        let ghost before = agg;
        let ghost pre = all.take(i as int);
        let ghost post = all.take(i + 1);
        proof {
            assert(post.drop_last() =~= pre);
            assert(post.last() == all[i as int]);
            if fits {
                lemma_entries_prefix(all, i as int);
                let tb = all[i as int].1;
                lemma_abs_total_prefix(agg.account_totals@, 0);
                lemma_tb_lines_nonneg(tb.lines@);
                let u = accounts_abs_total(agg.account_totals@) + tb_lines_abs(tb.lines@);
                assert(0 <= u <= entries_lines_abs(all));
                lemma_bounded_fits(
                    u,
                    entries_lines_abs(all),
                    entries_lines_scale(all),
                    max_nat(accounts_max_scale(agg.account_totals@), tb_lines_scale(tb.lines@)),
                );
                assert(accumulate_fits(agg.account_totals@, tb));
                let bt = entries_totals_abs(all);
                let st = entries_totals_scale(all);
                let td = agg.total_debits.units();
                let tc = agg.total_credits.units();
                let d = tb.total_debits.units();
                let c = tb.total_credits.units();
                assert(abs(td + d) <= abs(td) + abs(d));
                assert(abs(tc + c) <= abs(tc) + abs(c));
                assert(abs(td + d) + abs(tc + c) <= entries_totals_abs(post));
                lemma_bounded_fits(td + d, bt, st, max_nat(agg.total_debits.spec_scale(), tb.total_debits.spec_scale()));
                lemma_bounded_fits(tc + c, bt, st, max_nat(agg.total_credits.spec_scale(), tb.total_credits.spec_scale()));
            }
        }
        let res = accumulate_entity_into_aggregate(&mut agg, manifest, entity_tbs[i].0.as_str(), &entity_tbs[i].1);
        match res {
            Ok(()) => {},
            Err(e) => {
                proof {
                    if all_known(es, all) && currencies_match(es, all, manifest.presentation_currency@) {
                        assert(entity_method(es, all[i as int].0@) is Some);
                    }
                }
                return Err(e);
            },
        }
        proof {
            let m = entity_method(es, all[i as int].0@);
            assert(currencies_match(es, post, manifest.presentation_currency@)) by {
                assert forall|k: int| #![trigger post[k]] 0 <= k < post.len() && summed_entry(es, post[k]) implies post[k].1.currency@
                    == manifest.presentation_currency@ by {
                    if k < i {
                        assert(post[k] == pre[k]);
                    }
                }
            }
            assert(all_known(es, post)) by {
                assert forall|k: int| 0 <= k < post.len() implies (#[trigger] entity_method(es, post[k].0@)) is Some by {
                    if k < i {
                        assert(post[k] == pre[k]);
                    }
                }
            }
            if is_summed(m->0) {
                assert(string_views(agg.contributing_entities@) =~= string_views(before.contributing_entities@).push(all[i as int].0@));
                assert(deferred_views_of(agg.deferred_entities@) =~= deferred_views_of(before.deferred_entities@));
                if fits {
                    lemma_counts_after(before.account_totals@, agg.account_totals@, all[i as int].1.lines@, i as int);
                }
            } else {
                assert(string_views(agg.contributing_entities@) =~= string_views(before.contributing_entities@));
                assert(deferred_views_of(agg.deferred_entities@) =~= deferred_views_of(before.deferred_entities@).push((all[i as int].0@, m->0)));
                if fits {
                    assert forall|k: int| 0 <= k < agg.account_totals@.len() implies (#[trigger] agg.account_totals@[k]).contributing_entities <= i + 1 by {
                        assert(agg.account_totals@[k] == before.account_totals@[k]);
                    }
                }
            }
        }
        i = i + 1;
    }
    proof {
        assert(all.take(i as int) =~= all);
    }
    let ghost c0 = agg.contributing_entities@;
    let ghost d0 = agg.deferred_entities@;
    finalise_streaming_aggregate(&mut agg);
    proof {
        let f = |s: String| s@;
        crate::sorted_map::lemma_multiset_map(agg.contributing_entities@, c0, f);
        assert(string_views(agg.contributing_entities@) =~= agg.contributing_entities@.map_values(f));
        assert(string_views(c0) =~= c0.map_values(f));
        let g = |d: DeferredEntity| deferred_view(d);
        crate::sorted_map::lemma_multiset_map(agg.deferred_entities@, d0, g);
        assert(deferred_views_of(agg.deferred_entities@) =~= agg.deferred_entities@.map_values(g));
        assert(deferred_views_of(d0) =~= d0.map_values(g));
    }
    Ok(agg)
}
} // verus!
