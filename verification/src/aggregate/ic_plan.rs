//! Intercompany pair plans: for each entity, the pairs the manifest plans
//! it to post, with its role and the transaction type.  The aggregate
//! phase reads the plans to tell a pair's seller leg from its buyer leg.
use vstd::prelude::*;

use crate::config::IcTransactionType;
use crate::errors::GroupError;
use crate::text::str_eq;

verus! {

/// Which leg of an intercompany pair an entity posts.
#[derive(Debug, Clone, Copy, PartialEq, Eq, Structural)]
pub enum IcRole {
    Seller,
    Buyer,
}

/// One planned intercompany pair, seen from one of its two entities.
#[derive(Debug, Clone)]
pub struct IcPairPlan {
    /// Pair identifier, lowercase hex.
    pub pair_id: String,
    pub role: IcRole,
    pub transaction_type: IcTransactionType,
}

impl IcPairPlan {
    /// A field-by-field copy.
    pub fn duplicate(&self) -> (r: IcPairPlan)
        ensures
            r == *self,
    {
        IcPairPlan { pair_id: self.pair_id.clone(), role: self.role, transaction_type: self.transaction_type }
    }
}

/// The plans of the first entry for `entity` (none when absent).
pub open spec fn entity_plans(plans: Seq<(String, Vec<IcPairPlan>)>, entity: Seq<char>) -> Seq<IcPairPlan>
    decreases plans.len(),
{
    if plans.len() == 0 {
        Seq::empty()
    } else if plans[0].0@ == entity {
        plans[0].1@
    } else {
        entity_plans(plans.subrange(1, plans.len() as int), entity)
    }
}

/// The last plan with `pair` among `ps`: keyed by pair, a later plan
/// replaces an earlier one.
pub open spec fn last_plan(ps: Seq<IcPairPlan>, pair: Seq<char>) -> Option<IcPairPlan>
    decreases ps.len(),
{
    if ps.len() == 0 {
        None
    } else if ps.last().pair_id@ == pair {
        Some(ps.last())
    } else {
        last_plan(ps.drop_last(), pair)
    }
}

/// The plan `entity` holds for `pair`.
pub open spec fn plan_for(plans: Seq<(String, Vec<IcPairPlan>)>, entity: Seq<char>, pair: Seq<char>) -> Option<IcPairPlan> {
    last_plan(entity_plans(plans, entity), pair)
}

/// The plan `entity_code` holds for `pair_id`; an error naming both when
/// there is none (stale shard output or a manifest mismatch).
pub fn lookup_plan(plans: &Vec<(String, Vec<IcPairPlan>)>, entity_code: &str, pair_id: &str) -> (r: Result<
    IcPairPlan,
    GroupError,
>)
    ensures
        match plan_for(plans@, entity_code@, pair_id@) {
            Some(p) => r == Ok::<IcPairPlan, GroupError>(p),
            None => r matches Err(GroupError::Aggregate(_)),
        },
{
    let mut i: usize = 0;
    proof {
        assert(plans@.subrange(0, plans@.len() as int) =~= plans@);
    }
    while i < plans.len()
        invariant
            i <= plans@.len(),
            entity_plans(plans@, entity_code@) == entity_plans(plans@.subrange(i as int, plans@.len() as int), entity_code@),
        decreases plans.len() - i,
    {
        proof {
            let t = plans@.subrange(i as int, plans@.len() as int);
            assert(t[0] == plans@[i as int]);
            assert(t.subrange(1, t.len() as int) =~= plans@.subrange(i + 1, plans@.len() as int));
        }
        if str_eq(plans[i].0.as_str(), entity_code) {
            let ps = &plans[i].1;
            let mut j: usize = ps.len();
            proof {
                assert(ps@.take(j as int) =~= ps@);
            }
            while j > 0
                invariant
                    j <= ps@.len(),
                    entity_plans(plans@, entity_code@) == ps@,
                    last_plan(ps@, pair_id@) == last_plan(ps@.take(j as int), pair_id@),
                decreases j,
            {
                proof {
                    assert(ps@.take(j as int).drop_last() =~= ps@.take(j - 1));
                }
                if str_eq(ps[j - 1].pair_id.as_str(), pair_id) {
                    return Ok(ps[j - 1].duplicate());
                }
                j = j - 1;
            }
            return Err(GroupError::Aggregate(
                "match_ic_pairs: entity `".to_string().concat(entity_code).concat("` posted JE for pair ").concat(pair_id).concat(
                    " but the manifest derives no plan with that pair_id for that entity",
                ),
            ));
        }
        i = i + 1;
    }
    Err(GroupError::Aggregate(
        "match_ic_pairs: entity `".to_string().concat(entity_code).concat("` posted JE for pair ").concat(pair_id).concat(
            " but the manifest derives no plan with that pair_id for that entity",
        ),
    ))
}

/// Number of seller plans in `ps`.
pub open spec fn seller_count(ps: Seq<IcPairPlan>) -> nat
    decreases ps.len(),
{
    if ps.len() == 0 {
        0
    } else {
        seller_count(ps.drop_last()) + if ps.last().role == IcRole::Seller {
            1nat
        } else {
            0nat
        }
    }
}

/// Number of seller plans over every entity.
pub open spec fn planned_pairs(plans: Seq<(String, Vec<IcPairPlan>)>) -> nat
    decreases plans.len(),
{
    if plans.len() == 0 {
        0
    } else {
        planned_pairs(plans.drop_last()) + seller_count(plans.last().1@)
    }
}

/// Number of distinct planned pairs: one seller plan per logical pair.
pub(crate) fn total_planned_pairs(plans: &Vec<(String, Vec<IcPairPlan>)>) -> (r: usize)
    requires
        planned_pairs(plans@) <= usize::MAX,
    ensures
        r == planned_pairs(plans@),
{
    let mut total: usize = 0;
    let mut i: usize = 0;
    while i < plans.len()
        invariant
            i <= plans@.len(),
            total == planned_pairs(plans@.take(i as int)),
            planned_pairs(plans@) <= usize::MAX,
        decreases plans.len() - i,
    {
        let ps = &plans[i].1;
        let mut n: usize = 0;
        let mut j: usize = 0;
        proof {
            assert(plans@.take(i + 1).drop_last() =~= plans@.take(i as int));
            lemma_planned_prefix(plans@, i + 1);
            assert(ps@.take(0) =~= Seq::<IcPairPlan>::empty());
        }
        while j < ps.len()
            invariant
                j <= ps@.len(),
                n == seller_count(ps@.take(j as int)),
                total + seller_count(ps@) <= usize::MAX,
            decreases ps.len() - j,
        {
            proof {
                assert(ps@.take(j + 1).drop_last() =~= ps@.take(j as int));
                lemma_seller_prefix(ps@, j + 1);
            }
            if ps[j].role == IcRole::Seller {
                n = n + 1;
            }
            j = j + 1;
        }
        proof {
            assert(ps@.take(j as int) =~= ps@);
        }
        total = total + n;
        i = i + 1;
    }
    proof {
        assert(plans@.take(i as int) =~= plans@);
    }
    total
}

proof fn lemma_seller_prefix(ps: Seq<IcPairPlan>, k: int)
    requires
        0 <= k <= ps.len(),
    ensures
        seller_count(ps.take(k)) <= seller_count(ps),
    decreases ps.len(),
{
    if k < ps.len() {
        lemma_seller_prefix(ps.drop_last(), k);
        assert(ps.drop_last().take(k) =~= ps.take(k));
    } else {
        assert(ps.take(k) =~= ps);
    }
}

proof fn lemma_planned_prefix(plans: Seq<(String, Vec<IcPairPlan>)>, k: int)
    requires
        0 <= k <= plans.len(),
    ensures
        planned_pairs(plans.take(k)) <= planned_pairs(plans),
    decreases plans.len(),
{
    if k < plans.len() {
        lemma_planned_prefix(plans.drop_last(), k);
        assert(plans.drop_last().take(k) =~= plans.take(k));
    } else {
        assert(plans.take(k) =~= plans);
    }
}

} // verus!
