//! The intercompany matching coverage report: the matcher's counts, a
//! histogram of the unmatched sides by reason, and the head of the
//! unmatched list for triage.
use vstd::prelude::*;

use crate::aggregate::ic_matcher::{same_je, IcMatchResult, UnmatchedReason, UnmatchedSide};

verus! {

/// Largest number of unmatched sides the report carries.
pub const UNMATCHED_SAMPLE_CAP: usize = 100;

/// Summary of a match result.  The coverage ratio is
/// `matched / total_pairs_planned`, `0` when nothing was planned.
#[derive(Debug, Clone)]
pub struct CoverageReport {
    pub total_pairs_planned: usize,
    pub matched: usize,
    /// Unmatched sides per reason, every reason present, in reason order.
    pub unmatched_by_reason: Vec<(UnmatchedReason, usize)>,
    /// The first [`UNMATCHED_SAMPLE_CAP`] unmatched sides.
    pub unmatched_sample: Vec<UnmatchedSide>,
}

/// Number of sides with `reason`.
pub open spec fn reason_count(s: Seq<UnmatchedSide>, reason: UnmatchedReason) -> nat
    decreases s.len(),
{
    if s.len() == 0 {
        0
    } else {
        reason_count(s.drop_last(), reason) + if s.last().reason == reason {
            1nat
        } else {
            0nat
        }
    }
}

proof fn lemma_reason_count_bound(s: Seq<UnmatchedSide>, reason: UnmatchedReason)
    ensures
        reason_count(s, reason) <= s.len(),
    decreases s.len(),
{
    if s.len() > 0 {
        lemma_reason_count_bound(s.drop_last(), reason);
    }
}

/// Every unmatched side has exactly one reason: the histogram's three
/// counts add up to the number of unmatched sides.
pub proof fn law_reason_counts_partition(s: Seq<UnmatchedSide>)
    ensures
        reason_count(s, UnmatchedReason::MissingBuyerSide) + reason_count(s, UnmatchedReason::MissingSellerSide)
            + reason_count(s, UnmatchedReason::AmountDriftAboveTolerance) == s.len(),
    decreases s.len(),
{
    if s.len() > 0 {
        law_reason_counts_partition(s.drop_last());
    }
}

/// Build the report: the counts passed through, the histogram over the
/// three reasons, and the head of the unmatched list.
pub fn build_coverage_report(result: &IcMatchResult) -> (r: CoverageReport)
    ensures
        r.total_pairs_planned == result.total_planned,
        r.matched == result.matched@.len(),
        r.unmatched_by_reason@.len() == 3,
        r.unmatched_by_reason@[0] == (UnmatchedReason::MissingBuyerSide, reason_count(result.unmatched@, UnmatchedReason::MissingBuyerSide) as usize),
        r.unmatched_by_reason@[1] == (UnmatchedReason::MissingSellerSide, reason_count(result.unmatched@, UnmatchedReason::MissingSellerSide) as usize),
        r.unmatched_by_reason@[2] == (
            UnmatchedReason::AmountDriftAboveTolerance,
            reason_count(result.unmatched@, UnmatchedReason::AmountDriftAboveTolerance) as usize,
        ),
        reason_count(result.unmatched@, UnmatchedReason::MissingBuyerSide) <= result.unmatched@.len(),
        reason_count(result.unmatched@, UnmatchedReason::MissingSellerSide) <= result.unmatched@.len(),
        reason_count(result.unmatched@, UnmatchedReason::AmountDriftAboveTolerance) <= result.unmatched@.len(),
        r.unmatched_sample@.len() == if result.unmatched@.len() < UNMATCHED_SAMPLE_CAP {
            result.unmatched@.len()
        } else {
            UNMATCHED_SAMPLE_CAP as nat
        },
        forall|k: int| 0 <= k < r.unmatched_sample@.len() ==> {
            let a = #[trigger] r.unmatched_sample@[k];
            let b = result.unmatched@[k];
            &&& a.pair_id == b.pair_id
            &&& a.present_role == b.present_role
            &&& a.present_entity == b.present_entity
            &&& same_je(a.present_je, b.present_je)
            &&& a.reason == b.reason
        },
{
    let u = &result.unmatched;
    let mut buyer: usize = 0;
    let mut seller: usize = 0;
    let mut drift: usize = 0;
    let mut i: usize = 0;
    while i < u.len()
        invariant
            i <= u@.len(),
            buyer == reason_count(u@.take(i as int), UnmatchedReason::MissingBuyerSide),
            seller == reason_count(u@.take(i as int), UnmatchedReason::MissingSellerSide),
            drift == reason_count(u@.take(i as int), UnmatchedReason::AmountDriftAboveTolerance),
        decreases u.len() - i,
    {
        proof {
            assert(u@.take(i + 1).drop_last() =~= u@.take(i as int));
            lemma_reason_count_bound(u@.take(i as int), UnmatchedReason::MissingBuyerSide);
            lemma_reason_count_bound(u@.take(i as int), UnmatchedReason::MissingSellerSide);
            lemma_reason_count_bound(u@.take(i as int), UnmatchedReason::AmountDriftAboveTolerance);
        }
        match u[i].reason {
            UnmatchedReason::MissingBuyerSide => buyer = buyer + 1,
            UnmatchedReason::MissingSellerSide => seller = seller + 1,
            UnmatchedReason::AmountDriftAboveTolerance => drift = drift + 1,
        }
        i = i + 1;
    }
    proof {
        assert(u@.take(i as int) =~= u@);
        lemma_reason_count_bound(u@, UnmatchedReason::MissingBuyerSide);
        lemma_reason_count_bound(u@, UnmatchedReason::MissingSellerSide);
        lemma_reason_count_bound(u@, UnmatchedReason::AmountDriftAboveTolerance);
    }
    let mut by_reason: Vec<(UnmatchedReason, usize)> = Vec::new();
    by_reason.push((UnmatchedReason::MissingBuyerSide, buyer));
    by_reason.push((UnmatchedReason::MissingSellerSide, seller));
    by_reason.push((UnmatchedReason::AmountDriftAboveTolerance, drift));
    let n = if u.len() < UNMATCHED_SAMPLE_CAP {
        u.len()
    } else {
        UNMATCHED_SAMPLE_CAP
    };
    let mut sample: Vec<UnmatchedSide> = Vec::new();
    let mut k: usize = 0;
    while k < n
        invariant
            n <= u@.len(),
            k <= n,
            sample@.len() == k,
            forall|t: int| 0 <= t < k ==> {
                let a = #[trigger] sample@[t];
                let b = u@[t];
                &&& a.pair_id == b.pair_id
                &&& a.present_role == b.present_role
                &&& a.present_entity == b.present_entity
                &&& same_je(a.present_je, b.present_je)
                &&& a.reason == b.reason
            },
        decreases n - k,
    {
        sample.push(u[k].duplicate());
        k = k + 1;
    }
    CoverageReport {
        total_pairs_planned: result.total_planned,
        matched: result.matched.len(),
        unmatched_by_reason: by_reason,
        unmatched_sample: sample,
    }
}

} // verus!
