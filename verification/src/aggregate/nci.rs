//! Non-controlling interest: the per-subsidiary rollforward.
//!
//! For a fully consolidated, not wholly owned subsidiary:
//!
//! ```text
//! nci_percent = 1 - ownership_percent
//! share_x     = nci_percent * x * time_weight      (x = profit, OCI, dividends)
//! closing_nci = round2(opening + share_profit + share_oci - share_dividends
//!                      + equity_transaction_adjustments)
//! ```
//!
//! The time weight is 1, unless control was gained during the period: then
//! it is `(end - effective + 1) / (end - start + 1)` in days, and the
//! opening NCI is the acquisition-date NCI fair value when one is given.
//! Otherwise, in the first period (`opening_nci == 0`) an acquisition-date
//! fair value seeds the opening.  Changes of ownership within control
//! adjust NCI by minus the consideration paid or received.  Loss of control
//! during the period is not supported.
use vstd::prelude::*;
use vstd::string::*;

use crate::config::{method_name, ConsolidationMethod};
use crate::date::{chrono_date, date_to_string, day_number, days_between, Date};
use crate::dec::{
    abs, dec_add, dec_div, dec_lt, dec_mul, dec_sub, decimal_checked_div, decimal_checked_mul,
    fits_at, fits_sum, lemma_bounded_fits, max_nat, pow10, round2, round2_units, scale2, Dec,
};
use crate::errors::GroupError;
use crate::manifest::builder::ManifestEntity;

verus! {

/// One subsidiary's NCI rollforward record for the period.
#[derive(Debug, Clone)]
pub struct NciRollforward {
    pub entity_code: String,
    pub parent_entity_code: String,
    /// Parent's ownership share of the subsidiary's equity, in `[0, 1)`.
    pub ownership_percent: Dec,
    /// `1 - ownership_percent`.
    pub nci_percent: Dec,
    pub opening_nci: Dec,
    pub nci_share_of_profit: Dec,
    pub nci_share_of_oci: Dec,
    pub nci_dividends: Dec,
    pub equity_transaction_adjustments: Dec,
    pub pl_remeasurement_gain_or_loss: Dec,
    pub closing_nci: Dec,
    pub period_end: Date,
    pub currency: String,
}

/// Kind of a mid-period ownership change.
#[derive(Debug, Clone, Copy, PartialEq, Eq, Structural)]
pub enum OwnershipChangeType {
    ControlIncreased,
    ControlDecreased,
    ControlGained,
    ControlLost,
}

/// A mid-period ownership change of a subsidiary.
#[derive(Debug, Clone)]
pub struct OwnershipChangeEvent {
    pub event_type: OwnershipChangeType,
    pub effective_date: Date,
    pub ownership_percent_before: Dec,
    pub ownership_percent_after: Dec,
    pub previously_held_interest_carrying: Option<Dec>,
    pub previously_held_interest_fair_value: Option<Dec>,
    pub acquisition_date_nci_fair_value: Option<Dec>,
    pub consideration_paid_or_received: Dec,
}

/// What one subsidiary's rollforward is computed from.
pub struct NciInputs<'a> {
    pub entity: &'a ManifestEntity,
    pub period_net_income: Dec,
    pub period_oci: Dec,
    pub total_dividends_paid: Dec,
    pub opening_nci: Dec,
    pub acquisition_date_nci_fair_value: Option<Dec>,
    pub ownership_changes: &'a [OwnershipChangeEvent],
    pub period_start: Date,
    pub period_end: Date,
    pub currency: String,
}

/// Some event is a loss of control.
pub open spec fn has_control_lost(evs: Seq<OwnershipChangeEvent>) -> bool {
    exists|k: int| 0 <= k < evs.len() && (#[trigger] evs[k]).event_type == OwnershipChangeType::ControlLost
}

/// The last control-gained event, if any.
pub open spec fn last_gained(evs: Seq<OwnershipChangeEvent>) -> Option<OwnershipChangeEvent>
    decreases evs.len(),
{
    if evs.len() == 0 {
        None
    } else if evs.last().event_type == OwnershipChangeType::ControlGained {
        Some(evs.last())
    } else {
        last_gained(evs.drop_last())
    }
}

/// Minus the consideration of every change within control, in units.
pub open spec fn equity_adjustment(evs: Seq<OwnershipChangeEvent>) -> int
    decreases evs.len(),
{
    if evs.len() == 0 {
        0
    } else if evs.last().event_type == OwnershipChangeType::ControlIncreased
        || evs.last().event_type == OwnershipChangeType::ControlDecreased {
        equity_adjustment(evs.drop_last()) - evs.last().consideration_paid_or_received.units()
    } else {
        equity_adjustment(evs.drop_last())
    }
}

/// Sum of the magnitudes of the considerations.
pub open spec fn consideration_abs(evs: Seq<OwnershipChangeEvent>) -> int
    decreases evs.len(),
{
    if evs.len() == 0 {
        0
    } else {
        consideration_abs(evs.drop_last()) + abs(evs.last().consideration_paid_or_received.units())
    }
}

/// Largest scale among the considerations.
pub open spec fn consideration_scale(evs: Seq<OwnershipChangeEvent>) -> nat
    decreases evs.len(),
{
    if evs.len() == 0 {
        0
    } else {
        max_nat(consideration_scale(evs.drop_last()), evs.last().consideration_paid_or_received.spec_scale())
    }
}

/// The inputs pass validation: a fully consolidated entity with a parent
/// and an ownership below one, no loss of control, and a control-gained
/// date (if any) within the period.
pub open spec fn nci_valid(i: NciInputs) -> bool {
    &&& i.entity.consolidation_method == ConsolidationMethod::Full
    &&& i.entity.ownership_percent matches Some(o) && o.units() < pow10(28)
    &&& i.entity.parent_code is Some
    &&& !has_control_lost(i.ownership_changes@)
    &&& last_gained(i.ownership_changes@) matches Some(ev) ==> !ev.effective_date.before(i.period_start)
        && !i.period_end.before(ev.effective_date)
}

/// The time weight: one, or the post-acquisition share of the period's
/// days when control was gained.
pub open spec fn time_weight_spec(i: NciInputs) -> Option<Dec> {
    match last_gained(i.ownership_changes@) {
        None => Some(Dec::one_spec()),
        Some(ev) => {
            let total = day_number(i.period_end) - day_number(i.period_start) + 1;
            let post = day_number(i.period_end) - day_number(ev.effective_date) + 1;
            decimal_checked_div(Dec::int_spec(post as i64), Dec::int_spec(total as i64))
        },
    }
}

/// `p * x * w`, as `rust_decimal` computes it.
pub open spec fn share_spec(p: Dec, x: Dec, w: Dec) -> Option<Dec> {
    match decimal_checked_mul(p, x) {
        Some(px) => decimal_checked_mul(px, w),
        None => None,
    }
}

/// The opening NCI the rollforward starts from.
pub open spec fn effective_opening(i: NciInputs) -> Dec {
    let seeded = if i.opening_nci.units() == 0 && i.acquisition_date_nci_fair_value is Some {
        i.acquisition_date_nci_fair_value->0
    } else {
        i.opening_nci
    };
    match last_gained(i.ownership_changes@) {
        Some(ev) => match ev.acquisition_date_nci_fair_value {
            Some(fv) => fv,
            None => match i.acquisition_date_nci_fair_value {
                Some(fv) => fv,
                None => seeded,
            },
        },
        None => seeded,
    }
}

/// The re-measurement gain of a control-gained event, in units.
pub open spec fn remeasurement_spec(i: NciInputs) -> int {
    match last_gained(i.ownership_changes@) {
        Some(ev) => if ev.previously_held_interest_fair_value is Some
            && ev.previously_held_interest_carrying is Some {
            ev.previously_held_interest_fair_value->0.units() - ev.previously_held_interest_carrying->0.units()
        } else {
            0
        },
        None => 0,
    }
}

/// The dates the rollforward compares and counts days between are real
/// calendar days.
pub open spec fn nci_dates_ok(i: NciInputs) -> bool {
    &&& chrono_date(i.period_start)
    &&& chrono_date(i.period_end)
    &&& forall|k: int| 0 <= k < i.ownership_changes@.len() ==> chrono_date(
        (#[trigger] i.ownership_changes@[k]).effective_date,
    )
}

proof fn lemma_events_prefix(evs: Seq<OwnershipChangeEvent>, i: int)
    requires
        0 <= i <= evs.len(),
    ensures
        0 <= consideration_abs(evs.take(i)) <= consideration_abs(evs),
        consideration_scale(evs.take(i)) <= consideration_scale(evs),
        i < evs.len() ==> evs[i].consideration_paid_or_received.spec_scale() <= consideration_scale(evs),
        i < evs.len() ==> consideration_abs(evs.take(i + 1)) == consideration_abs(evs.take(i)) + abs(
            evs[i].consideration_paid_or_received.units(),
        ),
    decreases evs.len(),
{
    if i < evs.len() {
        assert(evs.take(i + 1).drop_last() =~= evs.take(i));
        assert(evs.take(i + 1).last() == evs[i]);
    }
    if evs.len() == 0 {
        assert(evs.take(i) =~= evs);
    } else if i == evs.len() {
        assert(evs.take(i) =~= evs);
        lemma_events_prefix(evs.drop_last(), 0);
    } else {
        lemma_events_prefix(evs.drop_last(), i);
        assert(evs.drop_last().take(i) =~= evs.take(i));
        if i < evs.len() - 1 {
            assert(evs.drop_last()[i] == evs[i]);
        }
    }
}

/// The message of an ownership-change list with a loss of control.
pub open spec fn control_lost_text(code: Seq<char>) -> Seq<char> {
    "compute_nci_rollforward: entity `"@ + code
        + "`: ControlLost mid-period deconsolidation events are not yet supported by the rollforward — this is a v5.5+ follow-up."@
}

/// The message of an entity that is not fully consolidated.
pub open spec fn nci_method_text(code: Seq<char>, m: ConsolidationMethod) -> Seq<char> {
    "compute_nci_rollforward: entity `"@ + code + "` has consolidation_method="@ + crate::config::method_name_spec(m)
        + " — NCI is only meaningful for ConsolidationMethod::Full (Parent is wholly owned; EquityMethod / Proportional / FairValue use one-line investment treatment)"@
}

/// The message of a subsidiary without an ownership.
pub open spec fn nci_no_ownership_text(code: Seq<char>) -> Seq<char> {
    "compute_nci_rollforward: entity `"@ + code
        + "` is consolidation_method=Full but has no ownership_percent set — supply ownership_percent < 1.0 or change the method to Parent for wholly-owned"@
}

/// The message of a wholly owned subsidiary.
pub open spec fn nci_wholly_owned_text(code: Seq<char>) -> Seq<char> {
    "compute_nci_rollforward: entity `"@ + code
        + "` is consolidation_method=Full but has no ownership_percent < 1.0 — use Parent for wholly-owned"@
}

/// The message of a subsidiary without a parent.
pub open spec fn nci_no_parent_text(code: Seq<char>) -> Seq<char> {
    "compute_nci_rollforward: entity `"@ + code
        + "` has no parent_code in the manifest — every Full subsidiary must declare its parent"@
}

/// Walk the ownership changes: the equity-transaction adjustment (minus
/// every consideration within control) and the index of the last
/// control-gained event.  `Err` on a loss of control, or when the
/// adjustment overflows (ruled out when the considerations' magnitudes fit
/// at their largest scale).
pub fn scan_ownership_changes(evs: &[OwnershipChangeEvent], entity_code: &str) -> (r: Result<(Dec, Option<usize>), GroupError>)
    ensures
        has_control_lost(evs@) ==> r is Err,
        has_control_lost(evs@) && fits_at(consideration_abs(evs@), consideration_scale(evs@)) ==> (r matches Err(
            GroupError::Aggregate(m),
        ) && m@ == control_lost_text(entity_code@)),
        (!has_control_lost(evs@) && fits_at(consideration_abs(evs@), consideration_scale(evs@))) ==> r is Ok,
        r matches Ok(t) ==> {
            &&& !has_control_lost(evs@)
            &&& match t.1 {
                None => last_gained(evs@) is None,
                Some(k) => k < evs@.len() && last_gained(evs@) == Some(evs@[k as int]),
            }
            &&& fits_at(consideration_abs(evs@), consideration_scale(evs@)) ==> {
                &&& t.0.units() == equity_adjustment(evs@)
                &&& abs(t.0.units()) <= consideration_abs(evs@)
                &&& t.0.spec_scale() <= consideration_scale(evs@)
            }
        },
{
    let ghost s = evs@;
    let ghost fits = fits_at(consideration_abs(s), consideration_scale(s));
    let mut adj = Dec::zero();
    let mut gained: Option<usize> = None;
    let mut i: usize = 0;
    proof {
        lemma_events_prefix(s, 0);
    }
    while i < evs.len()
        invariant
            s == evs@,
            i <= s.len(),
            fits == fits_at(consideration_abs(s), consideration_scale(s)),
            forall|m: int| 0 <= m < i ==> (#[trigger] s[m]).event_type != OwnershipChangeType::ControlLost,
            match gained {
                None => last_gained(s.take(i as int)) is None,
                Some(k) => k < i && last_gained(s.take(i as int)) == Some(s[k as int]),
            },
            fits ==> {
                &&& adj.units() == equity_adjustment(s.take(i as int))
                &&& abs(adj.units()) <= consideration_abs(s.take(i as int))
                &&& adj.spec_scale() <= consideration_scale(s)
            },
        decreases evs.len() - i,
    {
        proof {
            lemma_events_prefix(s, i as int);
            lemma_events_prefix(s, i + 1);
            assert(s.take(i + 1).drop_last() =~= s.take(i as int));
            assert(s.take(i + 1).last() == s[i as int]);
        }
        let ev = &evs[i];
        match ev.event_type {
            OwnershipChangeType::ControlIncreased | OwnershipChangeType::ControlDecreased => {
                proof {
                    if fits {
                        lemma_bounded_fits(
                            adj.units() - ev.consideration_paid_or_received.units(),
                            consideration_abs(s),
                            consideration_scale(s),
                            max_nat(adj.spec_scale(), ev.consideration_paid_or_received.spec_scale()),
                        );
                    }
                }
                adj = match dec_sub(adj, ev.consideration_paid_or_received) {
                    Some(x) => x,
                    None => {
                        return Err(GroupError::Aggregate("compute_nci_rollforward: equity-transaction adjustment overflows".to_string()));
                    },
                };
            },
            OwnershipChangeType::ControlGained => {
                gained = Some(i);
            },
            OwnershipChangeType::ControlLost => {
                let msg = "compute_nci_rollforward: entity `".to_string().concat(entity_code).concat(
                    "`: ControlLost mid-period deconsolidation events are not yet supported by the rollforward — this is a v5.5+ follow-up.",
                );
                proof {
                    reveal_strlit("compute_nci_rollforward: entity `");
                    reveal_strlit(
                        "`: ControlLost mid-period deconsolidation events are not yet supported by the rollforward — this is a v5.5+ follow-up.",
                    );
                }
                return Err(GroupError::Aggregate(msg));
            },
        }
        i = i + 1;
    }
    proof {
        assert(s.take(i as int) =~= s);
    }
    Ok((adj, gained))
}

/// `1 - ownership_percent`, as `rust_decimal` computes it.
pub open spec fn nci_percent_spec(i: NciInputs) -> Option<Dec> {
    crate::dec::decimal_checked_sub(Dec::one_spec(), i.entity.ownership_percent->0)
}

/// Closing NCI is computed exactly from the (unrounded) components.
pub open spec fn closing_exact(i: NciInputs, a: Dec, b: Dec, c: Dec) -> bool {
    let o = effective_opening(i);
    let evs = i.ownership_changes@;
    fits_at(
        abs(o.units()) + abs(a.units()) + abs(b.units()) + abs(c.units()) + consideration_abs(evs),
        max_nat(
            max_nat(max_nat(o.spec_scale(), a.spec_scale()), max_nat(b.spec_scale(), c.spec_scale())),
            consideration_scale(evs),
        ),
    )
}

/// The re-measurement `fair value - carrying` is exact.
pub open spec fn remeasurement_exact(i: NciInputs) -> bool {
    match last_gained(i.ownership_changes@) {
        Some(ev) => (ev.previously_held_interest_fair_value is Some && ev.previously_held_interest_carrying is Some)
            ==> fits_sum(
            ev.previously_held_interest_fair_value->0,
            ev.previously_held_interest_carrying->0,
            remeasurement_spec(i),
        ),
        None => true,
    }
}

/// Every decimal operation of the rollforward succeeds: the named results
/// of `rust_decimal`'s multiplications and division exist, and the sums
/// are exact.
pub open spec fn nci_computable(i: NciInputs) -> bool {
    match (nci_percent_spec(i), time_weight_spec(i)) {
        (Some(p), Some(w)) => match (
            share_spec(p, i.period_net_income, w),
            share_spec(p, i.period_oci, w),
            share_spec(p, i.total_dividends_paid, w),
        ) {
            (Some(a), Some(b), Some(c)) => {
                &&& closing_exact(i, a, b, c)
                &&& remeasurement_exact(i)
                &&& fits_at(consideration_abs(i.ownership_changes@), consideration_scale(i.ownership_changes@))
            },
            _ => false,
        },
        _ => false,
    }
}

/// The amounts of a rollforward follow from the inputs, rounded to two
/// places.
pub open spec fn nci_amounts_match(rf: NciRollforward, i: NciInputs) -> bool {
    let evs = i.ownership_changes@;
    match (nci_percent_spec(i), time_weight_spec(i)) {
        (Some(p), Some(w)) => match (
            share_spec(p, i.period_net_income, w),
            share_spec(p, i.period_oci, w),
            share_spec(p, i.total_dividends_paid, w),
        ) {
            (Some(a), Some(b), Some(c)) => {
                &&& rf.nci_percent == p
                &&& rf.opening_nci.units() == round2_units(effective_opening(i).units())
                &&& rf.nci_share_of_profit.units() == round2_units(a.units())
                &&& rf.nci_share_of_oci.units() == round2_units(b.units())
                &&& rf.nci_dividends.units() == round2_units(c.units())
                &&& rf.opening_nci.spec_scale() == scale2(effective_opening(i).spec_scale())
                &&& rf.nci_share_of_profit.spec_scale() == scale2(a.spec_scale())
                &&& rf.nci_share_of_oci.spec_scale() == scale2(b.spec_scale())
                &&& rf.nci_dividends.spec_scale() == scale2(c.spec_scale())
                &&& fits_at(consideration_abs(evs), consideration_scale(evs))
                    ==> rf.equity_transaction_adjustments.units() == round2_units(equity_adjustment(evs))
                &&& remeasurement_exact(i) ==> rf.pl_remeasurement_gain_or_loss.units() == round2_units(
                    remeasurement_spec(i),
                )
                &&& closing_exact(i, a, b, c) ==> rf.closing_nci.units() == round2_units(
                    effective_opening(i).units() + a.units() + b.units() - c.units() + equity_adjustment(evs),
                )
            },
            _ => false,
        },
        _ => false,
    }
}

fn agg_err(msg: &str) -> (r: GroupError)
    ensures
        r matches GroupError::Aggregate(m) && m@ == msg@,
{
    GroupError::Aggregate(msg.to_string())
}

/// The message a rejected subsidiary gets: by the first check it fails,
/// its method, ownership, parent, or a loss of control (when the
/// considerations sum exactly).
pub open spec fn nci_error_message(i: NciInputs, r: Result<NciRollforward, GroupError>) -> bool {
    let e = *i.entity;
    let evs = i.ownership_changes@;
    if e.consolidation_method != ConsolidationMethod::Full {
        r matches Err(GroupError::Aggregate(m)) && m@ == nci_method_text(e.code@, e.consolidation_method)
    } else if e.ownership_percent is None {
        r matches Err(GroupError::Aggregate(m)) && m@ == nci_no_ownership_text(e.code@)
    } else if !(e.ownership_percent->0.units() < pow10(28)) {
        r matches Err(GroupError::Aggregate(m)) && m@ == nci_wholly_owned_text(e.code@)
    } else if e.parent_code is None {
        r matches Err(GroupError::Aggregate(m)) && m@ == nci_no_parent_text(e.code@)
    } else if has_control_lost(evs) && fits_at(consideration_abs(evs), consideration_scale(evs)) {
        r matches Err(GroupError::Aggregate(m)) && m@ == control_lost_text(e.code@)
    } else {
        true
    }
}

/// Derive the NCI rollforward of one subsidiary.
///
/// `Err` when the inputs fail validation ([`nci_valid`]), or when a
/// decimal operation fails ([`nci_computable`] rules that out).
#[verifier::rlimit(80)]
pub fn compute_nci_rollforward(inputs: &NciInputs) -> (r: Result<NciRollforward, GroupError>)
    requires
        nci_dates_ok(*inputs),
    ensures
        !nci_valid(*inputs) ==> r is Err,
        nci_error_message(*inputs, r),
        (nci_valid(*inputs) && nci_computable(*inputs)) ==> r is Ok,
        r matches Ok(rf) ==> {
            &&& nci_valid(*inputs)
            &&& rf.entity_code@ == inputs.entity.code@
            &&& rf.parent_entity_code@ == inputs.entity.parent_code->0@
            &&& rf.ownership_percent == inputs.entity.ownership_percent->0
            &&& rf.period_end == inputs.period_end
            &&& rf.currency@ == inputs.currency@
            &&& nci_amounts_match(rf, *inputs)
        },
{
    let entity = inputs.entity;
    let ghost evs = inputs.ownership_changes@;
    proof {
        reveal_strlit("compute_nci_rollforward: entity `");
        reveal_strlit("` has consolidation_method=");
        reveal_strlit(
            " — NCI is only meaningful for ConsolidationMethod::Full (Parent is wholly owned; EquityMethod / Proportional / FairValue use one-line investment treatment)",
        );
        reveal_strlit(
            "` is consolidation_method=Full but has no ownership_percent set — supply ownership_percent < 1.0 or change the method to Parent for wholly-owned",
        );
        reveal_strlit("` is consolidation_method=Full but has no ownership_percent < 1.0 — use Parent for wholly-owned");
        reveal_strlit("` has no parent_code in the manifest — every Full subsidiary must declare its parent");
    }
    // 1. Only fully consolidated entities carry NCI.
    if entity.consolidation_method != ConsolidationMethod::Full {
        return Err(GroupError::Aggregate("compute_nci_rollforward: entity `".to_string().concat(entity.code.as_str()).concat(
            "` has consolidation_method=",
        ).concat(method_name(entity.consolidation_method)).concat(
            " — NCI is only meaningful for ConsolidationMethod::Full (Parent is wholly owned; EquityMethod / Proportional / FairValue use one-line investment treatment)",
        )));
    }
    // 2. Ownership must be present and below one.
    let ownership_percent = match entity.ownership_percent {
        Some(o) => o,
        None => {
            return Err(GroupError::Aggregate("compute_nci_rollforward: entity `".to_string().concat(entity.code.as_str()).concat(
                "` is consolidation_method=Full but has no ownership_percent set — supply ownership_percent < 1.0 or change the method to Parent for wholly-owned",
            )));
        },
    };
    let one = Dec::one();
    if !dec_lt(ownership_percent, one) {
        return Err(GroupError::Aggregate("compute_nci_rollforward: entity `".to_string().concat(entity.code.as_str()).concat(
            "` is consolidation_method=Full but has no ownership_percent < 1.0 — use Parent for wholly-owned",
        )));
    }
    let parent_entity_code = match &entity.parent_code {
        Some(p) => p.clone(),
        None => {
            return Err(GroupError::Aggregate("compute_nci_rollforward: entity `".to_string().concat(entity.code.as_str()).concat(
                "` has no parent_code in the manifest — every Full subsidiary must declare its parent",
            )));
        },
    };
    // 3. Ownership changes.
    let (equity_transaction_adjustments, gained) = scan_ownership_changes(inputs.ownership_changes, entity.code.as_str())?;
    // 4. Time weight, re-measurement and opening override for a mid-period
    //    gain of control.
    let mut time_weight = Dec::one();
    let mut pl = Dec::zero();
    let mut opening_override: Option<Dec> = None;
    if let Some(g) = gained {
        let ev = &inputs.ownership_changes[g];
        if ev.effective_date.is_before(&inputs.period_start) || inputs.period_end.is_before(&ev.effective_date) {
            proof {
                assert(chrono_date(evs[g as int].effective_date));
            }
            let msg = "compute_nci_rollforward: entity `".to_string().concat(entity.code.as_str()).concat(
                "`: ControlGained effective_date ",
            ).concat(date_to_string(ev.effective_date).as_str()).concat(" is outside the period [").concat(
                date_to_string(inputs.period_start).as_str(),
            ).concat(", ").concat(date_to_string(inputs.period_end).as_str()).concat(
                "] — the manifest builder normally rejects this; surface it here as a defence-in-depth check",
            );
            return Err(GroupError::Aggregate(msg));
        }
        proof {
            assert(chrono_date(evs[g as int].effective_date));
        }
        let total_days = days_between(inputs.period_start, inputs.period_end) + 1;
        let post_days = days_between(ev.effective_date, inputs.period_end) + 1;
        time_weight = match dec_div(Dec::from_i64(post_days), Dec::from_i64(total_days)) {
            Some(w) => w,
            None => {
                return Err(agg_err("compute_nci_rollforward: time weight is not computable"));
            },
        };
        match (ev.previously_held_interest_fair_value, ev.previously_held_interest_carrying) {
            (Some(fv), Some(carrying)) => {
                pl = match dec_sub(fv, carrying) {
                    Some(x) => x,
                    None => {
                        return Err(agg_err("compute_nci_rollforward: re-measurement gain overflows"));
                    },
                };
            },
            _ => {},
        }
        opening_override = match ev.acquisition_date_nci_fair_value {
            Some(fv) => Some(fv),
            None => inputs.acquisition_date_nci_fair_value,
        };
    }
    // 5. Shares of the period's equity movements.
    let nci_percent = match dec_sub(one, ownership_percent) {
        Some(p) => p,
        None => {
            return Err(agg_err("compute_nci_rollforward: nci_percent overflows"));
        },
    };
    let share_of_profit = match nci_share(nci_percent, inputs.period_net_income, time_weight) {
        Some(x) => x,
        None => {
            return Err(agg_err("compute_nci_rollforward: share of profit overflows"));
        },
    };
    let share_of_oci = match nci_share(nci_percent, inputs.period_oci, time_weight) {
        Some(x) => x,
        None => {
            return Err(agg_err("compute_nci_rollforward: share of OCI overflows"));
        },
    };
    let dividends = match nci_share(nci_percent, inputs.total_dividends_paid, time_weight) {
        Some(x) => x,
        None => {
            return Err(agg_err("compute_nci_rollforward: share of dividends overflows"));
        },
    };
    // 6. Effective opening and closing.
    let seeded = if inputs.opening_nci.is_zero() && inputs.acquisition_date_nci_fair_value.is_some() {
        match inputs.acquisition_date_nci_fair_value {
            Some(fv) => fv,
            None => inputs.opening_nci,
        }
    } else {
        inputs.opening_nci
    };
    let effective_opening_nci = match opening_override {
        Some(fv) => fv,
        None => seeded,
    };
    proof {
        lemma_events_prefix(evs, 0);
        let o = effective_opening_nci;
        let bound = abs(o.units()) + abs(share_of_profit.units()) + abs(share_of_oci.units()) + abs(dividends.units())
            + consideration_abs(evs);
        let sc = max_nat(
            max_nat(max_nat(o.spec_scale(), share_of_profit.spec_scale()), max_nat(share_of_oci.spec_scale(), dividends.spec_scale())),
            consideration_scale(evs),
        );
        if fits_at(bound, sc) {
            lemma_bounded_fits(consideration_abs(evs), bound, sc, consideration_scale(evs));
        }
    }
    let closing_raw = match closing_sum(
        effective_opening_nci,
        share_of_profit,
        share_of_oci,
        dividends,
        equity_transaction_adjustments,
        Ghost(consideration_abs(evs)),
        Ghost(consideration_scale(evs)),
    ) {
        Some(x) => x,
        None => {
            return Err(agg_err("compute_nci_rollforward: closing NCI overflows"));
        },
    };
    Ok(NciRollforward {
        entity_code: entity.code.clone(),
        parent_entity_code,
        ownership_percent,
        nci_percent,
        opening_nci: round2(effective_opening_nci),
        nci_share_of_profit: round2(share_of_profit),
        nci_share_of_oci: round2(share_of_oci),
        nci_dividends: round2(dividends),
        equity_transaction_adjustments: round2(equity_transaction_adjustments),
        pl_remeasurement_gain_or_loss: round2(pl),
        closing_nci: round2(closing_raw),
        period_end: inputs.period_end,
        currency: inputs.currency.clone(),
    })
}

/// `p * x * w`.
fn nci_share(p: Dec, x: Dec, w: Dec) -> (r: Option<Dec>)
    ensures
        r == share_spec(p, x, w),
{
    match dec_mul(p, x) {
        Some(px) => dec_mul(px, w),
        None => None,
    }
}

/// `opening + a + b - c + adj`, exact when all magnitudes (with `adj`
/// bounded by `adj_bound`) fit at the largest scale.
fn closing_sum(
    opening: Dec,
    a: Dec,
    b: Dec,
    c: Dec,
    adj: Dec,
    Ghost(adj_bound): Ghost<int>,
    Ghost(adj_scale): Ghost<nat>,
) -> (r: Option<Dec>)
    ensures
        ({
            let bound = abs(opening.units()) + abs(a.units()) + abs(b.units()) + abs(c.units()) + adj_bound;
            let sc = max_nat(
                max_nat(max_nat(opening.spec_scale(), a.spec_scale()), max_nat(b.spec_scale(), c.spec_scale())),
                adj_scale,
            );
            fits_at(bound, sc) && abs(adj.units()) <= adj_bound && adj.spec_scale() <= adj_scale
        }) ==> (r matches Some(x) && x.units() == opening.units() + a.units() + b.units() - c.units()
            + adj.units()),
{
    let ghost bound = abs(opening.units()) + abs(a.units()) + abs(b.units()) + abs(c.units()) + adj_bound;
    let ghost sc = max_nat(
        max_nat(max_nat(opening.spec_scale(), a.spec_scale()), max_nat(b.spec_scale(), c.spec_scale())),
        adj_scale,
    );
    let ghost ok = fits_at(bound, sc) && abs(adj.units()) <= adj_bound && adj.spec_scale() <= adj_scale;
    proof {
        if ok {
            lemma_bounded_fits(opening.units() + a.units(), bound, sc, max_nat(opening.spec_scale(), a.spec_scale()));
        }
    }
    let s1 = dec_add(opening, a)?;
    proof {
        if ok {
            lemma_bounded_fits(s1.units() + b.units(), bound, sc, max_nat(s1.spec_scale(), b.spec_scale()));
        }
    }
    let s2 = dec_add(s1, b)?;
    proof {
        if ok {
            lemma_bounded_fits(s2.units() - c.units(), bound, sc, max_nat(s2.spec_scale(), c.spec_scale()));
        }
    }
    let s3 = dec_sub(s2, c)?;
    proof {
        if ok {
            lemma_bounded_fits(s3.units() + adj.units(), bound, sc, max_nat(s3.spec_scale(), adj.spec_scale()));
        }
    }
    dec_add(s3, adj)
}


} // verus!
