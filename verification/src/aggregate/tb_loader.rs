//! Which of an entity's period-close trial balances the consolidation
//! reads: the latest by `(fiscal_year, fiscal_period)`.
use vstd::prelude::*;

verus! {

/// `a` comes no later than `b` in `(fiscal_year, fiscal_period)` order.
pub open spec fn period_le(a: (i32, u32), b: (i32, u32)) -> bool {
    a.0 < b.0 || (a.0 == b.0 && a.1 <= b.1)
}

/// The index of the latest period in `periods`; where several share the
/// latest key, the last of them.  `None` for an empty list.
pub fn latest_period_index(periods: &Vec<(i32, u32)>) -> (r: Option<usize>)
    ensures
        r is None <==> periods@.len() == 0,
        r matches Some(i) ==> {
            &&& i < periods@.len()
            &&& forall|j: int| 0 <= j < periods@.len() ==> period_le(#[trigger] periods@[j], periods@[i as int])
            &&& forall|j: int| i < j < periods@.len() ==> !period_le(periods@[i as int], #[trigger] periods@[j])
        },
{
    if periods.len() == 0 {
        return None;
    }
    let mut best: usize = 0;
    let mut i: usize = 1;
    while i < periods.len()
        invariant
            1 <= i <= periods@.len(),
            best < i,
            forall|j: int| 0 <= j < i ==> period_le(#[trigger] periods@[j], periods@[best as int]),
            forall|j: int| best < j < i ==> !period_le(periods@[best as int], #[trigger] periods@[j]),
        decreases periods.len() - i,
    {
        let (by, bp) = periods[best];
        let (y, p) = periods[i];
        if by < y || (by == y && bp <= p) {
            best = i;
        }
        i = i + 1;
    }
    Some(best)
}

} // verus!
