//! Joining the two legs of every intercompany pair.
//!
//! Journal entries carrying an intercompany pair identifier are grouped
//! by that identifier.  A group with a seller leg and a buyer leg is a
//! matched pair; a group with one leg is an unmatched side; anything else
//! (three or more legs, two legs in the same role, a leg the plans do not
//! know) is corruption and an error.  Both lists come out in pair order.
use vstd::prelude::*;

use crate::aggregate::ic_plan::{lookup_plan, plan_for, planned_pairs, total_planned_pairs, IcPairPlan, IcRole};
use crate::aggregate::journal::JournalEntry;
use crate::config::IcMatchingStrategy;
use crate::dec::{checked_sum, decimal_checked_div, decimal_checked_sub, dec_div, dec_lt, dec_sub, sum_decs, Dec};
use crate::aggregate::journal::JournalEntryLine;
use crate::errors::GroupError;
use crate::manifest::builder::GroupManifest;
use crate::sorted_map::{lemma_sm_at, lemma_sm_contains_iff, sm_find, sm_map, sm_sorted, sm_upsert};
use crate::text::seq_lt;

verus! {

/// Why a side could not be matched.
#[derive(Debug, Clone, Copy, PartialEq, Eq, Structural)]
pub enum UnmatchedReason {
    /// A seller leg whose buyer leg is missing.
    MissingBuyerSide,
    /// A buyer leg whose seller leg is missing.
    MissingSellerSide,
    /// Both legs present, but their amounts drift apart by more than the
    /// fuzzy-mode tolerance.
    AmountDriftAboveTolerance,
}

/// A joined pair: the seller's and the buyer's journal entries.
#[derive(Debug, Clone)]
pub struct IcMatchedPair {
    pub pair_id: String,
    pub seller_entity: String,
    pub buyer_entity: String,
    pub seller_je: JournalEntry,
    pub buyer_je: JournalEntry,
}

/// An observed leg whose counterpart could not be joined to it.
#[derive(Debug, Clone)]
pub struct UnmatchedSide {
    pub pair_id: String,
    pub present_role: IcRole,
    pub present_entity: String,
    pub present_je: JournalEntry,
    pub reason: UnmatchedReason,
}

impl UnmatchedSide {
    /// A copy of every field.
    pub fn duplicate(&self) -> (r: UnmatchedSide)
        ensures
            r.pair_id == self.pair_id,
            r.present_role == self.present_role,
            r.present_entity == self.present_entity,
            same_je(r.present_je, self.present_je),
            r.reason == self.reason,
    {
        UnmatchedSide {
            pair_id: self.pair_id.clone(),
            present_role: self.present_role,
            present_entity: self.present_entity.clone(),
            present_je: self.present_je.duplicate(),
            reason: self.reason,
        }
    }
}

/// The matched pairs and unmatched sides, both in pair order, and the
/// number of planned pairs (the coverage denominator).
#[derive(Debug, Clone)]
pub struct IcMatchResult {
    pub matched: Vec<IcMatchedPair>,
    pub unmatched: Vec<UnmatchedSide>,
    pub total_planned: usize,
}

/// The legs of pair `p` among one entity's entries, as
/// `(entity index, entry index)`, in order.
pub open spec fn pair_sides_in(i: int, jes: Seq<JournalEntry>, p: Seq<char>) -> Seq<(usize, usize)>
    decreases jes.len(),
{
    if jes.len() == 0 {
        Seq::empty()
    } else if jes.last().header.ic_pair_id matches Some(q) && q@ == p {
        pair_sides_in(i, jes.drop_last(), p).push((i as usize, (jes.len() - 1) as usize))
    } else {
        pair_sides_in(i, jes.drop_last(), p)
    }
}

/// The legs of pair `p` over every entity, entity by entity.
pub open spec fn pair_sides(entries: Seq<(String, Vec<JournalEntry>)>, p: Seq<char>) -> Seq<(usize, usize)>
    decreases entries.len(),
{
    if entries.len() == 0 {
        Seq::empty()
    } else {
        pair_sides(entries.drop_last(), p) + pair_sides_in(entries.len() - 1, entries.last().1@, p)
    }
}

pub open spec fn side_code(entries: Seq<(String, Vec<JournalEntry>)>, s: (usize, usize)) -> Seq<char> {
    entries[s.0 as int].0@
}

pub open spec fn side_je(entries: Seq<(String, Vec<JournalEntry>)>, s: (usize, usize)) -> JournalEntry {
    entries[s.0 as int].1@[s.1 as int]
}

/// The plan the leg's entity holds for the pair.
pub open spec fn side_plan(
    plans: Seq<(String, Vec<IcPairPlan>)>,
    entries: Seq<(String, Vec<JournalEntry>)>,
    p: Seq<char>,
    s: (usize, usize),
) -> Option<IcPairPlan> {
    plan_for(plans, side_code(entries, s), p)
}

/// A pair whose legs cannot be joined: more than two legs, a leg without
/// a plan, or two legs in the same role.
pub open spec fn pair_is_corrupt(
    entries: Seq<(String, Vec<JournalEntry>)>,
    plans: Seq<(String, Vec<IcPairPlan>)>,
    p: Seq<char>,
) -> bool {
    let s = pair_sides(entries, p);
    ||| s.len() > 2
    ||| (1 <= s.len() <= 2 && side_plan(plans, entries, p, s[0]) is None)
    ||| (s.len() == 2 && side_plan(plans, entries, p, s[1]) is None)
    ||| (s.len() == 2 && side_plan(plans, entries, p, s[0]) is Some && side_plan(plans, entries, p, s[1]) is Some
        && side_plan(plans, entries, p, s[0])->0.role == side_plan(plans, entries, p, s[1])->0.role)
}

/// A pair with one seller leg and one buyer leg.
pub open spec fn pair_matchable(
    entries: Seq<(String, Vec<JournalEntry>)>,
    plans: Seq<(String, Vec<IcPairPlan>)>,
    p: Seq<char>,
) -> bool {
    pair_sides(entries, p).len() == 2 && !pair_is_corrupt(entries, plans, p)
}

/// A pair with a single, planned leg.
pub open spec fn pair_single(
    entries: Seq<(String, Vec<JournalEntry>)>,
    plans: Seq<(String, Vec<IcPairPlan>)>,
    p: Seq<char>,
) -> bool {
    pair_sides(entries, p).len() == 1 && !pair_is_corrupt(entries, plans, p)
}

/// The seller leg of a matchable pair.
pub open spec fn seller_side(
    entries: Seq<(String, Vec<JournalEntry>)>,
    plans: Seq<(String, Vec<IcPairPlan>)>,
    p: Seq<char>,
) -> (usize, usize) {
    let s = pair_sides(entries, p);
    if side_plan(plans, entries, p, s[0])->0.role == IcRole::Seller {
        s[0]
    } else {
        s[1]
    }
}

/// The buyer leg of a matchable pair.
pub open spec fn buyer_side(
    entries: Seq<(String, Vec<JournalEntry>)>,
    plans: Seq<(String, Vec<IcPairPlan>)>,
    p: Seq<char>,
) -> (usize, usize) {
    let s = pair_sides(entries, p);
    if side_plan(plans, entries, p, s[0])->0.role == IcRole::Seller {
        s[1]
    } else {
        s[0]
    }
}

/// Two journal entries with the same header and lines.
pub open spec fn same_je(a: JournalEntry, b: JournalEntry) -> bool {
    a.header == b.header && a.lines@ == b.lines@
}

/// `m` joins the seller and buyer legs of its pair.
pub open spec fn matched_pair_ok(
    entries: Seq<(String, Vec<JournalEntry>)>,
    plans: Seq<(String, Vec<IcPairPlan>)>,
    m: IcMatchedPair,
) -> bool {
    let p = m.pair_id@;
    &&& pair_matchable(entries, plans, p)
    &&& m.seller_entity@ == side_code(entries, seller_side(entries, plans, p))
    &&& m.buyer_entity@ == side_code(entries, buyer_side(entries, plans, p))
    &&& same_je(m.seller_je, side_je(entries, seller_side(entries, plans, p)))
    &&& same_je(m.buyer_je, side_je(entries, buyer_side(entries, plans, p)))
}

/// `u` is leg `s` of its pair, in the role its plan gives, for `reason`.
pub open spec fn unmatched_is_side(
    entries: Seq<(String, Vec<JournalEntry>)>,
    plans: Seq<(String, Vec<IcPairPlan>)>,
    u: UnmatchedSide,
    s: (usize, usize),
) -> bool {
    &&& side_plan(plans, entries, u.pair_id@, s) is Some
    &&& u.present_role == side_plan(plans, entries, u.pair_id@, s)->0.role
    &&& u.present_entity@ == side_code(entries, s)
    &&& same_je(u.present_je, side_je(entries, s))
}

/// `u` reports the single leg of its pair, or one leg of a pair whose
/// amounts drifted apart.
pub open spec fn unmatched_ok(
    entries: Seq<(String, Vec<JournalEntry>)>,
    plans: Seq<(String, Vec<IcPairPlan>)>,
    u: UnmatchedSide,
) -> bool {
    let p = u.pair_id@;
    ||| pair_single(entries, plans, p) && unmatched_is_side(entries, plans, u, pair_sides(entries, p)[0])
        && u.reason == (if u.present_role == IcRole::Seller {
        UnmatchedReason::MissingBuyerSide
    } else {
        UnmatchedReason::MissingSellerSide
    })
    ||| pair_matchable(entries, plans, p) && u.reason == UnmatchedReason::AmountDriftAboveTolerance && (
    unmatched_is_side(entries, plans, u, pair_sides(entries, p)[0]) || unmatched_is_side(
        entries,
        plans,
        u,
        pair_sides(entries, p)[1],
    ))
}

/// Every leg of `p` names an entity and an entry of the input, and carries
/// the pair identifier `p`.
proof fn lemma_sides_in_valid(i: int, jes: Seq<JournalEntry>, p: Seq<char>)
    requires
        0 <= i <= usize::MAX,
        jes.len() <= usize::MAX,
    ensures
        forall|k: int| 0 <= k < pair_sides_in(i, jes, p).len() ==> {
            let s = #[trigger] pair_sides_in(i, jes, p)[k];
            &&& s.0 == i
            &&& s.1 < jes.len()
            &&& jes[s.1 as int].header.ic_pair_id matches Some(q) && q@ == p
        },
    decreases jes.len(),
{
    if jes.len() > 0 {
        lemma_sides_in_valid(i, jes.drop_last(), p);
    }
}

proof fn lemma_sides_valid(entries: Seq<(String, Vec<JournalEntry>)>, p: Seq<char>)
    requires
        entries.len() <= usize::MAX,
    ensures
        pair_sides(entries, p).len() >= 0,
        forall|k: int| 0 <= k < pair_sides(entries, p).len() ==> {
            let s = #[trigger] pair_sides(entries, p)[k];
            &&& s.0 < entries.len()
            &&& s.1 < entries[s.0 as int].1@.len()
        },
    decreases entries.len(),
{
    if entries.len() > 0 {
        let e = entries.drop_last();
        lemma_sides_valid(e, p);
        let last = entries.last().1@;
        assert(entries.last().1.len() == last.len());
        lemma_sides_in_valid(entries.len() - 1, last, p);
        let a = pair_sides(e, p);
        let b = pair_sides_in(entries.len() - 1, last, p);
        assert forall|k: int| 0 <= k < pair_sides(entries, p).len() implies {
            let s = #[trigger] pair_sides(entries, p)[k];
            &&& s.0 < entries.len()
            &&& s.1 < entries[s.0 as int].1@.len()
        } by {
            if k < a.len() {
                assert(pair_sides(entries, p)[k] == a[k]);
                assert(entries[a[k].0 as int] == e[a[k].0 as int]);
            } else {
                assert(pair_sides(entries, p)[k] == b[k - a.len()]);
            }
        }
    }
}

/// A copy of a list of legs.
fn copy_sides(v: &Vec<(usize, usize)>) -> (r: Vec<(usize, usize)>)
    ensures
        r@ == v@,
{
    let mut out: Vec<(usize, usize)> = Vec::new();
    let mut i: usize = 0;
    while i < v.len()
        invariant
            i <= v@.len(),
            out@ == v@.take(i as int),
        decreases v.len() - i,
    {
        out.push(v[i]);
        proof {
            assert(out@ =~= v@.take(i + 1));
        }
        i = i + 1;
    }
    proof {
        assert(v@.take(i as int) =~= v@);
    }
    out
}

/// The groups after some entities and some entries of the next: keyed by
/// pair identifier, each holding the legs seen so far.
pub open spec fn groups_state(
    groups: Seq<(String, Vec<(usize, usize)>)>,
    entries: Seq<(String, Vec<JournalEntry>)>,
    i: int,
    j: int,
) -> bool {
    &&& sm_sorted(groups)
    &&& forall|p: Seq<char>| #[trigger] sm_map(groups).contains_key(p) <==> (pair_sides(entries.take(i), p) + pair_sides_in(
        i,
        entries[i].1@.take(j),
        p,
    )).len() > 0
    &&& forall|p: Seq<char>| #[trigger] sm_map(groups).contains_key(p) ==> sm_map(groups)[p]@ == pair_sides(entries.take(i), p)
        + pair_sides_in(i, entries[i].1@.take(j), p)
}

/// Group the legs of every entry carrying a pair identifier by that
/// identifier.
fn group_sides(entity_jes: &[(String, Vec<JournalEntry>)]) -> (r: Vec<(String, Vec<(usize, usize)>)>)
    ensures
        sm_sorted(r@),
        forall|p: Seq<char>| #[trigger] sm_map(r@).contains_key(p) <==> pair_sides(entity_jes@, p).len() > 0,
        forall|p: Seq<char>| #[trigger] sm_map(r@).contains_key(p) ==> sm_map(r@)[p]@ == pair_sides(entity_jes@, p),
{
    let ghost e = entity_jes@;
    let mut groups: Vec<(String, Vec<(usize, usize)>)> = Vec::new();
    let mut i: usize = 0;
    proof {
        assert(e.take(0) =~= Seq::<(String, Vec<JournalEntry>)>::empty());
    }
    while i < entity_jes.len()
        invariant
            i <= e.len(),
            e == entity_jes@,
            sm_sorted(groups@),
            forall|p: Seq<char>| #[trigger] sm_map(groups@).contains_key(p) <==> pair_sides(e.take(i as int), p).len() > 0,
            forall|p: Seq<char>| #[trigger] sm_map(groups@).contains_key(p) ==> sm_map(groups@)[p]@ == pair_sides(
                e.take(i as int),
                p,
            ),
        decreases e.len() - i,
    {
        let jes = &entity_jes[i].1;
        let mut j: usize = 0;
        proof {
            assert(jes@.take(0) =~= Seq::<JournalEntry>::empty());
            assert forall|p: Seq<char>| #[trigger] sm_map(groups@).contains_key(p) ==> sm_map(groups@)[p]@ == pair_sides(e.take(i as int), p)
                + pair_sides_in(i as int, jes@.take(0), p) by {
                assert(pair_sides(e.take(i as int), p) + pair_sides_in(i as int, jes@.take(0), p) =~= pair_sides(e.take(i as int), p));
            }
            assert forall|p: Seq<char>| #[trigger] sm_map(groups@).contains_key(p) <==> (pair_sides(e.take(i as int), p)
                + pair_sides_in(i as int, jes@.take(0), p)).len() > 0 by {
                assert(pair_sides(e.take(i as int), p) + pair_sides_in(i as int, jes@.take(0), p) =~= pair_sides(e.take(i as int), p));
            }
        }
        while j < jes.len()
            invariant
                i < e.len(),
                e == entity_jes@,
                jes@ == e[i as int].1@,
                j <= jes@.len(),
                groups_state(groups@, e, i as int, j as int),
            decreases jes.len() - j,
        {
            let ghost g0 = groups@;
            proof {
                assert(jes@.take(j + 1).drop_last() =~= jes@.take(j as int));
                assert(jes@.take(j + 1).last() == jes@[j as int]);
            }
            match &jes[j].header.ic_pair_id {
                Some(q) => {
                    let (found, idx) = sm_find(&groups, q.as_str());
                    let mut v: Vec<(usize, usize)> = if found {
                        proof {
                            lemma_sm_at(groups@, idx as int);
                        }
                        copy_sides(&groups[idx].1)
                    } else {
                        Vec::new()
                    };
                    let ghost v0 = v@;
                    v.push((i, j));
                    sm_upsert(&mut groups, q.clone(), v);
                    proof {
                        assert forall|p: Seq<char>| #[trigger] sm_map(groups@).contains_key(p) <==> (pair_sides(e.take(i as int), p)
                            + pair_sides_in(i as int, jes@.take(j + 1), p)).len() > 0 by {
                            if p != q@ {
                                assert(pair_sides_in(i as int, jes@.take(j + 1), p) == pair_sides_in(i as int, jes@.take(j as int), p));
                            }
                        }
                        assert forall|p: Seq<char>| #[trigger] sm_map(groups@).contains_key(p) implies sm_map(groups@)[p]@
                            == pair_sides(e.take(i as int), p) + pair_sides_in(i as int, jes@.take(j + 1), p) by {
                            if p != q@ {
                                assert(pair_sides_in(i as int, jes@.take(j + 1), p) == pair_sides_in(i as int, jes@.take(j as int), p));
                            } else {
                                let a = pair_sides(e.take(i as int), p);
                                let b = pair_sides_in(i as int, jes@.take(j as int), p);
                                if !found {
                                    assert((a + b).len() == 0);
                                    assert(a + b =~= Seq::<(usize, usize)>::empty());
                                }
                                assert(v0 == a + b);
                                assert((a + b).push((i, j)) =~= a + b.push((i, j)));
                            }
                        }
                    }
                },
                None => {
                    proof {
                        assert forall|p: Seq<char>| #[trigger] pair_sides_in(i as int, jes@.take(j + 1), p) == pair_sides_in(
                            i as int,
                            jes@.take(j as int),
                            p,
                        ) by {}
                    }
                },
            }
            j = j + 1;
        }
        proof {
            assert(jes@.take(j as int) =~= jes@);
            assert(e.take(i + 1).drop_last() =~= e.take(i as int));
            assert(e.take(i + 1).last() == e[i as int]);
            assert forall|p: Seq<char>| #[trigger] pair_sides(e.take(i + 1), p) == pair_sides(e.take(i as int), p) + pair_sides_in(
                i as int,
                jes@,
                p,
            ) by {}
        }
        i = i + 1;
    }
    proof {
        assert(e.take(i as int) =~= e);
    }
    groups
}

/// The debit amounts of the lines, in order.
pub open spec fn debit_amounts(lines: Seq<JournalEntryLine>) -> Seq<Dec> {
    lines.map_values(|l: JournalEntryLine| l.debit_amount)
}

/// Total debit of an entry: the sum of its lines' debit amounts; `None`
/// when the sum overflows.
fn total_debit(je: &JournalEntry) -> (r: Option<Dec>)
    ensures
        r == checked_sum(debit_amounts(je.lines@)),
{
    let mut debits: Vec<Dec> = Vec::new();
    let mut i: usize = 0;
    while i < je.lines.len()
        invariant
            i <= je.lines@.len(),
            debits@ == debit_amounts(je.lines@.take(i as int)),
        decreases je.lines.len() - i,
    {
        debits.push(je.lines[i].debit_amount);
        proof {
            assert(debits@ =~= debit_amounts(je.lines@.take(i + 1)));
        }
        i = i + 1;
    }
    proof {
        assert(je.lines@.take(i as int) =~= je.lines@);
    }
    sum_decs(&debits)
}

/// Whether the totals `s`, `b` of two legs drift apart by more than
/// `tolerance`: `|s - b| / max(|s|, |b|) > tolerance`, the gap `|s - b|`
/// taken as the larger magnitude less the smaller; never when both are
/// zero; `None` when a decimal operation fails.  Equal magnitudes have no
/// gap, so they drift only for a negative tolerance.
pub open spec fn drift_of(s: Dec, b: Dec, tolerance: Dec) -> Option<bool> {
    let sa = s.abs_spec();
    let ba = b.abs_spec();
    if sa.units() == ba.units() {
        Some(0 < sa.units() && tolerance.units() < 0)
    } else {
        let big = if sa.units() < ba.units() {
            ba
        } else {
            sa
        };
        let small = if sa.units() < ba.units() {
            sa
        } else {
            ba
        };
        match decimal_checked_sub(big, small) {
            Some(d) => match decimal_checked_div(d, big) {
                Some(q) => Some(tolerance.units() < q.units()),
                None => None,
            },
            None => None,
        }
    }
}

/// The drift test does not depend on which leg is the seller's.
pub proof fn law_drift_symmetric(s: Dec, b: Dec, tolerance: Dec)
    ensures
        drift_of(s, b, tolerance) == drift_of(b, s, tolerance),
{
}

/// What the drift test compares: the larger of the magnitudes `|s|`,
/// `|b|` less the smaller (the gap `|s - b|`, never negative), over the
/// larger, against the tolerance; equal magnitudes drift only for a
/// negative tolerance, and two zero legs never.
pub proof fn law_drift_compares_gap_to_larger_leg(s: Dec, b: Dec, tolerance: Dec)
    ensures
        ({
            let sa = s.abs_spec().units();
            let ba = b.abs_spec().units();
            &&& sa == ba ==> drift_of(s, b, tolerance) == Some(0 < sa && tolerance.units() < 0)
            &&& sa < ba ==> drift_of(s, b, tolerance) == match decimal_checked_sub(b.abs_spec(), s.abs_spec()) {
                Some(gap) => match decimal_checked_div(gap, b.abs_spec()) {
                    Some(q) => Some(tolerance.units() < q.units()),
                    None => None,
                },
                None => None,
            }
            &&& ba < sa ==> drift_of(s, b, tolerance) == match decimal_checked_sub(s.abs_spec(), b.abs_spec()) {
                Some(gap) => match decimal_checked_div(gap, s.abs_spec()) {
                    Some(q) => Some(tolerance.units() < q.units()),
                    None => None,
                },
                None => None,
            }
        }),
{
}

/// Whether the two legs' amounts drift apart by more than `tolerance`:
/// `|s - b| / max(|s|, |b|) > tolerance` with `s`, `b` the legs' total
/// debits; never when both are zero.
fn amounts_drift(seller_je: &JournalEntry, buyer_je: &JournalEntry, tolerance: Dec) -> (r: Result<bool, GroupError>)
    ensures
        r is Err ==> r matches Err(GroupError::Aggregate(_)),
        match (checked_sum(debit_amounts(seller_je.lines@)), checked_sum(debit_amounts(buyer_je.lines@))) {
            (Some(s), Some(b)) => match drift_of(s, b, tolerance) {
                Some(x) => r == Ok::<bool, GroupError>(x),
                None => r is Err,
            },
            _ => r is Err,
        },
{
    let s = match total_debit(seller_je) {
        Some(x) => x.abs(),
        None => {
            return Err(GroupError::Aggregate("match_ic_pairs: seller amount overflows".to_string()));
        },
    };
    let b = match total_debit(buyer_je) {
        Some(x) => x.abs(),
        None => {
            return Err(GroupError::Aggregate("match_ic_pairs: buyer amount overflows".to_string()));
        },
    };
    let zero = Dec::zero();
    let s_below = dec_lt(s, b);
    let b_below = dec_lt(b, s);
    if !s_below && !b_below {
        return Ok(dec_lt(zero, s) && dec_lt(tolerance, zero));
    }
    let big = if s_below {
        b
    } else {
        s
    };
    let small = if s_below {
        s
    } else {
        b
    };
    let gap = match dec_sub(big, small) {
        Some(d) => d,
        None => {
            return Err(GroupError::Aggregate("match_ic_pairs: amount drift overflows".to_string()));
        },
    };
    match dec_div(gap, big) {
        Some(ratio) => Ok(dec_lt(tolerance, ratio)),
        None => Err(GroupError::Aggregate("match_ic_pairs: drift ratio overflows".to_string())),
    }
}

/// Join the legs of every intercompany pair.  `plans` holds, per entity
/// code, the pairs the manifest plans for that entity.
pub fn match_ic_pairs(
    manifest: &GroupManifest,
    entity_jes: &[(String, Vec<JournalEntry>)],
    plans: &Vec<(String, Vec<IcPairPlan>)>,
) -> (r: Result<IcMatchResult, GroupError>)
    requires
        planned_pairs(plans@) <= usize::MAX,
    ensures
        r is Err ==> r matches Err(GroupError::Aggregate(_)),
        (exists|p: Seq<char>| pair_is_corrupt(entity_jes@, plans@, p)) ==> r is Err,
        manifest.matching.strategy == IcMatchingStrategy::ManifestDriven && !(exists|p: Seq<char>|
            pair_is_corrupt(entity_jes@, plans@, p)) ==> r is Ok,
        r matches Ok(res) ==> {
            let e = entity_jes@;
            let pl = plans@;
            let manifest_driven = manifest.matching.strategy == IcMatchingStrategy::ManifestDriven;
            &&& res.total_planned == planned_pairs(pl)
            &&& forall|a: int, b: int| 0 <= a < b < res.matched@.len() ==> seq_lt(
                #[trigger] res.matched@[a].pair_id@,
                #[trigger] res.matched@[b].pair_id@,
            )
            &&& forall|k: int| 0 <= k < res.matched@.len() ==> matched_pair_ok(e, pl, #[trigger] res.matched@[k])
            &&& forall|a: int, b: int| 0 <= a < b < res.unmatched@.len() ==> !seq_lt(
                #[trigger] res.unmatched@[b].pair_id@,
                #[trigger] res.unmatched@[a].pair_id@,
            )
            &&& manifest_driven ==> forall|a: int, b: int| 0 <= a < b < res.unmatched@.len() ==> seq_lt(
                #[trigger] res.unmatched@[a].pair_id@,
                #[trigger] res.unmatched@[b].pair_id@,
            )
            &&& forall|k: int| 0 <= k < res.unmatched@.len() ==> unmatched_ok(e, pl, #[trigger] res.unmatched@[k])
            &&& manifest_driven ==> forall|k: int| 0 <= k < res.unmatched@.len() ==> (#[trigger] res.unmatched@[k]).reason
                != UnmatchedReason::AmountDriftAboveTolerance
            &&& forall|p: Seq<char>| #[trigger] pair_single(e, pl, p) ==> exists|k: int| 0 <= k < res.unmatched@.len()
                && (#[trigger] res.unmatched@[k]).pair_id@ == p
            &&& forall|p: Seq<char>| #[trigger] pair_matchable(e, pl, p) ==> (exists|k: int| 0 <= k < res.matched@.len()
                && (#[trigger] res.matched@[k]).pair_id@ == p) || (!manifest_driven && exists|k: int|
                0 <= k < res.unmatched@.len() && (#[trigger] res.unmatched@[k]).pair_id@ == p)
        },
{
    let ghost e = entity_jes@;
    let ghost pl = plans@;
    let ghost md = manifest.matching.strategy == IcMatchingStrategy::ManifestDriven;
    let groups = group_sides(entity_jes);
    let mut matched: Vec<IcMatchedPair> = Vec::new();
    let mut unmatched: Vec<UnmatchedSide> = Vec::new();
    let ghost mut mk: Seq<int> = Seq::empty();
    let ghost mut uk: Seq<int> = Seq::empty();
    let mut g: usize = 0;
    let _n_entities = entity_jes.len();
    while g < groups.len()
        invariant
            g <= groups@.len(),
            e == entity_jes@,
            e.len() <= usize::MAX,
            pl == plans@,
            md == (manifest.matching.strategy == IcMatchingStrategy::ManifestDriven),
            sm_sorted(groups@),
            forall|p: Seq<char>| #[trigger] sm_map(groups@).contains_key(p) <==> pair_sides(e, p).len() > 0,
            forall|p: Seq<char>| #[trigger] sm_map(groups@).contains_key(p) ==> sm_map(groups@)[p]@ == pair_sides(e, p),
            forall|k: int| 0 <= k < g ==> !pair_is_corrupt(e, pl, #[trigger] groups@[k].0@),
            mk.len() == matched@.len(),
            forall|k: int| 0 <= k < mk.len() ==> 0 <= #[trigger] mk[k] < g,
            forall|a: int, b: int| 0 <= a < b < mk.len() ==> #[trigger] mk[a] < #[trigger] mk[b],
            forall|k: int| 0 <= k < mk.len() ==> (#[trigger] matched@[k]).pair_id@ == groups@[mk[k]].0@,
            forall|k: int| 0 <= k < mk.len() ==> matched_pair_ok(e, pl, #[trigger] matched@[k]),
            uk.len() == unmatched@.len(),
            forall|k: int| 0 <= k < uk.len() ==> 0 <= #[trigger] uk[k] < g,
            forall|a: int, b: int| 0 <= a < b < uk.len() ==> #[trigger] uk[a] <= #[trigger] uk[b],
            md ==> forall|a: int, b: int| 0 <= a < b < uk.len() ==> #[trigger] uk[a] < #[trigger] uk[b],
            forall|k: int| 0 <= k < uk.len() ==> (#[trigger] unmatched@[k]).pair_id@ == groups@[uk[k]].0@,
            forall|k: int| 0 <= k < uk.len() ==> unmatched_ok(e, pl, #[trigger] unmatched@[k]),
            md ==> forall|k: int| 0 <= k < uk.len() ==> (#[trigger] unmatched@[k]).reason
                != UnmatchedReason::AmountDriftAboveTolerance,
            forall|gk: int| 0 <= gk < g && pair_single(e, pl, #[trigger] groups@[gk].0@) ==> exists|k: int|
                0 <= k < uk.len() && #[trigger] uk[k] == gk,
            forall|gk: int| 0 <= gk < g && pair_matchable(e, pl, #[trigger] groups@[gk].0@) ==> (exists|k: int|
                0 <= k < mk.len() && #[trigger] mk[k] == gk) || (!md && exists|k: int| 0 <= k < uk.len() && #[trigger] uk[k] == gk),
        decreases groups@.len() - g,
    {
        let p = &groups[g].0;
        let sides = &groups[g].1;
        let ghost uk0 = uk;
        let ghost mk0 = mk;
        proof {
            lemma_sm_at(groups@, g as int);
            lemma_sides_valid(e, p@);
        }
        let n = sides.len();
        if n == 1 {
            let s0 = sides[0];
            let code = &entity_jes[s0.0].0;
            let plan = match lookup_plan(plans, code.as_str(), p.as_str()) {
                Ok(x) => x,
                Err(err) => {
                    proof {
                        assert(pair_is_corrupt(e, pl, p@));
                    }
                    return Err(err);
                },
            };
            let reason = match plan.role {
                IcRole::Seller => UnmatchedReason::MissingBuyerSide,
                IcRole::Buyer => UnmatchedReason::MissingSellerSide,
            };
            let u = UnmatchedSide {
                pair_id: p.clone(),
                present_role: plan.role,
                present_entity: code.clone(),
                present_je: entity_jes[s0.0].1[s0.1].duplicate(),
                reason,
            };
            unmatched.push(u);
            proof {
                uk = uk.push(g as int);
                assert(uk[uk.len() - 1] == g);
                assert(!pair_is_corrupt(e, pl, groups@[g as int].0@));
            }
        } else if n == 2 {
            let sa = sides[0];
            let sb = sides[1];
            let plan_a = match lookup_plan(plans, entity_jes[sa.0].0.as_str(), p.as_str()) {
                Ok(x) => x,
                Err(err) => {
                    proof {
                        assert(pair_is_corrupt(e, pl, p@));
                    }
                    return Err(err);
                },
            };
            let plan_b = match lookup_plan(plans, entity_jes[sb.0].0.as_str(), p.as_str()) {
                Ok(x) => x,
                Err(err) => {
                    proof {
                        assert(pair_is_corrupt(e, pl, p@));
                    }
                    return Err(err);
                },
            };
            let (si, bi) = match (plan_a.role, plan_b.role) {
                (IcRole::Seller, IcRole::Buyer) => (sa, sb),
                (IcRole::Buyer, IcRole::Seller) => (sb, sa),
                (IcRole::Seller, IcRole::Seller) => {
                    proof {
                        assert(pair_is_corrupt(e, pl, p@));
                    }
                    return Err(GroupError::Aggregate(
                        "match_ic_pairs: pair ".to_string().concat(p.as_str()).concat(
                            " has two seller-side observations, expected one seller + one buyer",
                        ),
                    ));
                },
                (IcRole::Buyer, IcRole::Buyer) => {
                    proof {
                        assert(pair_is_corrupt(e, pl, p@));
                    }
                    return Err(GroupError::Aggregate(
                        "match_ic_pairs: pair ".to_string().concat(p.as_str()).concat(
                            " has two buyer-side observations, expected one seller + one buyer",
                        ),
                    ));
                },
            };
            let seller_je = &entity_jes[si.0].1[si.1];
            let buyer_je = &entity_jes[bi.0].1[bi.1];
            let drifted = match manifest.matching.strategy {
                IcMatchingStrategy::EmergentFuzzy => match amounts_drift(seller_je, buyer_je, manifest.matching.tolerance_percent) {
                    Ok(d) => d,
                    Err(err) => {
                        return Err(err);
                    },
                },
                IcMatchingStrategy::ManifestDriven => false,
            };
            if drifted {
                let us = UnmatchedSide {
                    pair_id: p.clone(),
                    present_role: IcRole::Seller,
                    present_entity: entity_jes[si.0].0.clone(),
                    present_je: seller_je.duplicate(),
                    reason: UnmatchedReason::AmountDriftAboveTolerance,
                };
                unmatched.push(us);
                let ub = UnmatchedSide {
                    pair_id: p.clone(),
                    present_role: IcRole::Buyer,
                    present_entity: entity_jes[bi.0].0.clone(),
                    present_je: buyer_je.duplicate(),
                    reason: UnmatchedReason::AmountDriftAboveTolerance,
                };
                unmatched.push(ub);
                proof {
                    uk = uk.push(g as int).push(g as int);
                    assert(uk[uk.len() - 1] == g);
                    assert(!pair_is_corrupt(e, pl, groups@[g as int].0@));
                }
            } else {
                let m = IcMatchedPair {
                    pair_id: p.clone(),
                    seller_entity: entity_jes[si.0].0.clone(),
                    buyer_entity: entity_jes[bi.0].0.clone(),
                    seller_je: seller_je.duplicate(),
                    buyer_je: buyer_je.duplicate(),
                };
                matched.push(m);
                proof {
                    mk = mk.push(g as int);
                    assert(mk[mk.len() - 1] == g);
                    assert(!pair_is_corrupt(e, pl, groups@[g as int].0@));
                }
            }
        } else {
            proof {
                assert(pair_is_corrupt(e, pl, p@));
            }
            return Err(GroupError::Aggregate(
                "match_ic_pairs: pair ".to_string().concat(p.as_str()).concat(
                    " has more than two observed sides, expected at most 2 (one seller + one buyer)",
                ),
            ));
        }
        proof {
            assert(uk0.len() <= uk.len() && forall|k: int| 0 <= k < uk0.len() ==> uk[k] == uk0[k]);
            assert(mk0.len() <= mk.len() && forall|k: int| 0 <= k < mk0.len() ==> mk[k] == mk0[k]);
            assert forall|gk: int| 0 <= gk < g + 1 && pair_single(e, pl, #[trigger] groups@[gk].0@) implies exists|k: int|
                0 <= k < uk.len() && #[trigger] uk[k] == gk by {
                if gk < g {
                    let k = choose|k: int| 0 <= k < uk0.len() && #[trigger] uk0[k] == gk;
                    assert(uk[k] == gk);
                } else {
                    assert(uk[uk.len() - 1] == gk);
                }
            }
            assert forall|gk: int| 0 <= gk < g + 1 && pair_matchable(e, pl, #[trigger] groups@[gk].0@) implies (exists|k: int|
                0 <= k < mk.len() && #[trigger] mk[k] == gk) || (!md && exists|k: int| 0 <= k < uk.len() && #[trigger] uk[k] == gk) by {
                if gk < g {
                    if exists|k: int| 0 <= k < mk0.len() && #[trigger] mk0[k] == gk {
                        let k = choose|k: int| 0 <= k < mk0.len() && #[trigger] mk0[k] == gk;
                        assert(mk[k] == gk);
                    } else {
                        let k = choose|k: int| 0 <= k < uk0.len() && #[trigger] uk0[k] == gk;
                        assert(uk[k] == gk);
                    }
                } else if mk.len() > mk0.len() {
                    assert(mk[mk.len() - 1] == gk);
                } else {
                    assert(uk[uk.len() - 1] == gk);
                }
            }
        }
        g = g + 1;
    }
    proof {
        assert forall|p: Seq<char>| !pair_is_corrupt(e, pl, p) by {
            if pair_sides(e, p).len() > 0 {
                lemma_sm_contains_iff(groups@, p);
                let gk = choose|gk: int| 0 <= gk < groups@.len() && #[trigger] groups@[gk].0@ == p;
                assert(!pair_is_corrupt(e, pl, groups@[gk].0@));
            }
        }
    }
    proof {
        assert forall|a: int, b: int| 0 <= a < b < matched@.len() implies seq_lt(
            #[trigger] matched@[a].pair_id@,
            #[trigger] matched@[b].pair_id@,
        ) by {
            assert(mk[a] < mk[b]);
            assert(seq_lt(groups@[mk[a]].0@, groups@[mk[b]].0@));
        }
        assert forall|a: int, b: int| 0 <= a < b < unmatched@.len() implies !seq_lt(
            #[trigger] unmatched@[b].pair_id@,
            #[trigger] unmatched@[a].pair_id@,
        ) by {
            assert(uk[a] <= uk[b]);
            if uk[a] == uk[b] {
                crate::text::lemma_seq_lt_irrefl(unmatched@[a].pair_id@);
            } else {
                assert(seq_lt(groups@[uk[a]].0@, groups@[uk[b]].0@));
                crate::text::lemma_seq_lt_asym(groups@[uk[a]].0@, groups@[uk[b]].0@);
            }
        }
        if md {
            assert forall|a: int, b: int| 0 <= a < b < unmatched@.len() implies seq_lt(
                #[trigger] unmatched@[a].pair_id@,
                #[trigger] unmatched@[b].pair_id@,
            ) by {
                assert(uk[a] < uk[b]);
                assert(seq_lt(groups@[uk[a]].0@, groups@[uk[b]].0@));
            }
        }
        assert forall|p: Seq<char>| #[trigger] pair_single(e, pl, p) implies exists|k: int| 0 <= k < unmatched@.len()
            && (#[trigger] unmatched@[k]).pair_id@ == p by {
            lemma_sm_contains_iff(groups@, p);
            let gk = choose|gk: int| 0 <= gk < groups@.len() && #[trigger] groups@[gk].0@ == p;
            assert(pair_single(e, pl, groups@[gk].0@));
            let k = choose|k: int| 0 <= k < uk.len() && #[trigger] uk[k] == gk;
            assert(unmatched@[k].pair_id@ == p);
        }
        assert forall|p: Seq<char>| #[trigger] pair_matchable(e, pl, p) implies (exists|k: int| 0 <= k < matched@.len()
            && (#[trigger] matched@[k]).pair_id@ == p) || (!md && exists|k: int| 0 <= k < unmatched@.len()
            && (#[trigger] unmatched@[k]).pair_id@ == p) by {
            lemma_sm_contains_iff(groups@, p);
            let gk = choose|gk: int| 0 <= gk < groups@.len() && #[trigger] groups@[gk].0@ == p;
            assert(pair_matchable(e, pl, groups@[gk].0@));
            if exists|k: int| 0 <= k < mk.len() && #[trigger] mk[k] == gk {
                let k = choose|k: int| 0 <= k < mk.len() && #[trigger] mk[k] == gk;
                assert(matched@[k].pair_id@ == p);
            } else {
                let k = choose|k: int| 0 <= k < uk.len() && #[trigger] uk[k] == gk;
                assert(unmatched@[k].pair_id@ == p);
            }
        }
    }
    let total_planned = total_planned_pairs(plans);
    Ok(IcMatchResult { matched, unmatched, total_planned })
}

} // verus!
