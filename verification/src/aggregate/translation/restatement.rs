//! IAS 29 restatement of hyperinflationary entities: the general price
//! index series and the restatement path an entity takes.
use vstd::prelude::*;

use crate::aggregate::translation::classify::TranslationAccountType;
use crate::date::Date;
use crate::dec::{abs, dec_add, dec_div, dec_lt, decimal_checked_add, decimal_checked_div, Dec};
use crate::manifest::builder::HyperinflationStatus;
use crate::sorted_map::{lemma_sm_at, sm_find, sm_map, sm_sorted};

verus! {

/// A general price index series: index levels observed on dates.
#[derive(Debug, Clone)]
pub struct GeneralPriceIndex {
    pub currency: String,
    pub source: String,
    /// `(date, level)` observations, one per date.
    pub observations: Vec<(Date, Dec)>,
}

/// `d1 <= d2` on dates.
pub open spec fn date_le(d1: Date, d2: Date) -> bool {
    !d2.before(d1)
}

/// `r` is what a lookup at `d` gives: the level of an observation at or
/// before `d` with no later such observation, or `None` when there is
/// none at or before `d`.
pub open spec fn lookup_result(s: Seq<(Date, Dec)>, d: Date, r: Option<Dec>) -> bool {
    match r {
        None => forall|j: int| 0 <= j < s.len() ==> !date_le(#[trigger] s[j].0, d),
        Some(v) => exists|k: int|
            0 <= k < s.len() && #[trigger] s[k].1 == v && date_le(s[k].0, d) && forall|j: int|
                0 <= j < s.len() && date_le(#[trigger] s[j].0, d) ==> date_le(s[j].0, s[k].0),
    }
}

/// The index a lookup at `d` settles on: the latest observation at or
/// before `d`, the last of them when several share that date.
pub open spec fn lookup_index(s: Seq<(Date, Dec)>, d: Date) -> Option<int>
    decreases s.len(),
{
    if s.len() == 0 {
        None
    } else {
        let r = lookup_index(s.drop_last(), d);
        if date_le(s.last().0, d) && (match r {
            None => true,
            Some(k) => date_le(s[k].0, s.last().0),
        }) {
            Some(s.len() - 1)
        } else {
            r
        }
    }
}

/// The level a lookup at `d` gives.
pub open spec fn lookup_value(s: Seq<(Date, Dec)>, d: Date) -> Option<Dec> {
    match lookup_index(s, d) {
        Some(k) => Some(s[k].1),
        None => None,
    }
}

proof fn lemma_lookup_index_prefix(s: Seq<(Date, Dec)>, d: Date, i: int)
    requires
        0 <= i < s.len(),
    ensures
        lookup_index(s.take(i + 1), d) == (if date_le(s[i].0, d) && (match lookup_index(s.take(i), d) {
            None => true,
            Some(k) => date_le(s[k].0, s[i].0),
        }) {
            Some(i)
        } else {
            lookup_index(s.take(i), d)
        }),
        lookup_index(s.take(i), d) matches Some(k) ==> 0 <= k < i,
{
    assert(s.take(i + 1).drop_last() =~= s.take(i));
    lemma_lookup_index_range(s.take(i), d);
    if let Some(k) = lookup_index(s.take(i), d) {
        assert(s.take(i)[k] == s[k]);
    }
}

proof fn lemma_lookup_index_range(s: Seq<(Date, Dec)>, d: Date)
    ensures
        lookup_index(s, d) matches Some(k) ==> 0 <= k < s.len(),
    decreases s.len(),
{
    if s.len() > 0 {
        lemma_lookup_index_range(s.drop_last(), d);
    }
}

proof fn lemma_date_order(a: Date, b: Date, c: Date)
    ensures
        !(a.before(b) && b.before(a)),
        !a.before(a),
        a.before(b) || b.before(a) || a == b,
        a.before(b) && b.before(c) ==> a.before(c),
{
}

impl GeneralPriceIndex {
    /// An empty series.
    pub fn new(currency: &str, source: &str) -> (r: GeneralPriceIndex)
        ensures
            r.currency@ == currency@,
            r.source@ == source@,
            r.observations@.len() == 0,
    {
        GeneralPriceIndex { currency: currency.to_string(), source: source.to_string(), observations: Vec::new() }
    }

    /// Record the level of `date`, replacing an earlier observation of the
    /// same date.
    pub fn observe(&mut self, date: Date, level: Dec)
        ensures
            final(self).currency == old(self).currency,
            final(self).source == old(self).source,
            exists|k: int| 0 <= k < final(self).observations@.len() && #[trigger] final(self).observations@[k] == (date, level),
            forall|j: int| 0 <= j < final(self).observations@.len() && (#[trigger] final(self).observations@[j]).0 != date
                ==> old(self).observations@.contains(final(self).observations@[j]),
            forall|j: int| 0 <= j < old(self).observations@.len() && (#[trigger] old(self).observations@[j]).0 != date
                ==> final(self).observations@.contains(old(self).observations@[j]),
    {
        let mut i: usize = 0;
        while i < self.observations.len()
            invariant
                *self == *old(self),
                i <= self.observations@.len(),
                forall|j: int| 0 <= j < i ==> (#[trigger] self.observations@[j]).0 != date,
            decreases self.observations.len() - i,
        {
            if self.observations[i].0 == date {
                let ghost before = self.observations@;
                self.observations.set(i, (date, level));
                proof {
                    assert(self.observations@[i as int] == (date, level));
                    assert forall|j: int| 0 <= j < self.observations@.len() && (#[trigger] self.observations@[j]).0 != date
                        implies before.contains(self.observations@[j]) by {
                        assert(before[j] == self.observations@[j]);
                    }
                    assert forall|j: int| 0 <= j < before.len() && (#[trigger] before[j]).0 != date
                        implies self.observations@.contains(before[j]) by {
                        assert(self.observations@[j] == before[j]);
                    }
                }
                return;
            }
            i = i + 1;
        }
        let ghost before = self.observations@;
        self.observations.push((date, level));
        proof {
            assert(self.observations@[before.len() as int] == (date, level));
            assert forall|j: int| 0 <= j < self.observations@.len() && (#[trigger] self.observations@[j]).0 != date
                implies before.contains(self.observations@[j]) by {
                assert(before[j] == self.observations@[j]);
            }
            assert forall|j: int| 0 <= j < before.len() && (#[trigger] before[j]).0 != date
                implies self.observations@.contains(before[j]) by {
                assert(self.observations@[j] == before[j]);
            }
        }
    }

    /// The level of the most recent observation at or before `date`.
    pub fn lookup(&self, date: Date) -> (r: Option<Dec>)
        ensures
            lookup_result(self.observations@, date, r),
            r == lookup_value(self.observations@, date),
    {
        let ghost s = self.observations@;
        let mut best: Option<usize> = None;
        let mut i: usize = 0;
        while i < self.observations.len()
            invariant
                s == self.observations@,
                i <= s.len(),
                match best {
                    None => forall|j: int| 0 <= j < i ==> !date_le(#[trigger] s[j].0, date),
                    Some(k) => k < i && date_le(s[k as int].0, date) && forall|j: int|
                        0 <= j < i && date_le(#[trigger] s[j].0, date) ==> date_le(s[j].0, s[k as int].0),
                },
                match best {
                    None => lookup_index(s.take(i as int), date) is None,
                    Some(k) => lookup_index(s.take(i as int), date) == Some(k as int),
                },
            decreases self.observations.len() - i,
        {
            let d = self.observations[i].0;
            proof {
                lemma_lookup_index_prefix(s, date, i as int);
            }
            if !date.is_before(&d) {
                match best {
                    None => {
                        best = Some(i);
                    },
                    Some(k) => {
                        if !d.is_before(&self.observations[k].0) {
                            proof {
                                assert forall|j: int| 0 <= j < i + 1 && date_le(#[trigger] s[j].0, date)
                                    implies date_le(s[j].0, s[i as int].0) by {
                                    lemma_date_order(s[j].0, s[k as int].0, s[i as int].0);
                                }
                            }
                            best = Some(i);
                        }
                    },
                }
            }
            i = i + 1;
        }
        proof {
            assert(s.take(i as int) =~= s);
        }
        match best {
            Some(k) => Some(self.observations[k].1),
            None => None,
        }
    }
}

/// An observation falls in the period `[start, end]`.
pub open spec fn in_cpi_period(o: (Date, Dec), start: Date, end: Date) -> bool {
    !o.0.before(start) && !end.before(o.0)
}

/// The left-to-right `checked_add` of the levels observed in the period,
/// from zero, with their count; `None` once an addition overflows.
pub open spec fn period_fold(s: Seq<(Date, Dec)>, start: Date, end: Date) -> Option<(Dec, int)>
    decreases s.len(),
{
    if s.len() == 0 {
        Some((Dec::zero_spec(), 0))
    } else {
        match period_fold(s.drop_last(), start, end) {
            None => None,
            Some(acc) => if in_cpi_period(s.last(), start, end) {
                match decimal_checked_add(acc.0, s.last().1) {
                    Some(x) => Some((x, acc.1 + 1)),
                    None => None,
                }
            } else {
                Some(acc)
            },
        }
    }
}

proof fn lemma_period_fold_none(s: Seq<(Date, Dec)>, start: Date, end: Date, k: int)
    requires
        0 <= k <= s.len(),
        period_fold(s.take(k), start, end) is None,
    ensures
        period_fold(s, start, end) is None,
    decreases s.len() - k,
{
    if k < s.len() {
        assert(s.take(k + 1).drop_last() =~= s.take(k));
        lemma_period_fold_none(s, start, end, k + 1);
    } else {
        assert(s.take(k) =~= s);
    }
}

/// The average index of the period: the mean of the levels observed in it,
/// or the midpoint of the opening level `o` and closing level `c` when
/// there is none; `None` when a decimal operation fails.
pub open spec fn cpi_average(s: Seq<(Date, Dec)>, start: Date, end: Date, o: Dec, c: Dec) -> Option<Dec> {
    match period_fold(s, start, end) {
        None => None,
        Some(acc) => if acc.1 == 0 {
            match decimal_checked_add(o, c) {
                Some(t) => decimal_checked_div(t, Dec::int_spec(2)),
                None => None,
            }
        } else {
            decimal_checked_div(acc.0, Dec::int_spec(acc.1 as i64))
        },
    }
}

/// With opening level `o` and closing level `c`, every index is positive
/// and the average is computable.
pub open spec fn cpi_indices_ok(s: Seq<(Date, Dec)>, start: Date, end: Date, o: Dec, c: Dec) -> bool {
    &&& o.units() > 0
    &&& c.units() > 0
    &&& cpi_average(s, start, end, o, c) matches Some(a) && a.units() > 0
}

/// The indices a price series yields for a period: the levels a lookup
/// gives at its start and end and the average index, when all three exist
/// and are positive.
pub open spec fn cpi_restatement(s: Seq<(Date, Dec)>, start: Date, end: Date) -> Option<IndexedRestatement> {
    match (lookup_value(s, start), lookup_value(s, end)) {
        (Some(o), Some(c)) => match cpi_average(s, start, end, o, c) {
            Some(a) => if o.units() > 0 && c.units() > 0 && a.units() > 0 {
                Some(IndexedRestatement { opening_index: o, closing_index: c, average_index: a })
            } else {
                None
            },
            None => None,
        },
        _ => None,
    }
}

/// IAS 29 restatement indices of one period.
#[derive(Debug, Clone, Copy)]
pub struct IndexedRestatement {
    pub opening_index: Dec,
    pub closing_index: Dec,
    pub average_index: Dec,
}

impl IndexedRestatement {
    /// Indices of a period; `Err` unless all three are positive.
    pub fn new(opening_index: Dec, closing_index: Dec, average_index: Dec) -> (r: Result<IndexedRestatement, String>)
        ensures
            r is Ok <==> (opening_index.units() > 0 && closing_index.units() > 0 && average_index.units() > 0),
            r matches Ok(ir) ==> ir.opening_index == opening_index && ir.closing_index == closing_index
                && ir.average_index == average_index,
    {
        let zero = Dec::zero();
        if !dec_lt(zero, opening_index) {
            return Err("IndexedRestatement::new: opening_index must be > 0".to_string());
        }
        if !dec_lt(zero, closing_index) {
            return Err("IndexedRestatement::new: closing_index must be > 0".to_string());
        }
        if !dec_lt(zero, average_index) {
            return Err("IndexedRestatement::new: average_index must be > 0".to_string());
        }
        Ok(IndexedRestatement { opening_index, closing_index, average_index })
    }

    /// `closing / opening`, the factor for non-monetary items and equity.
    pub fn non_monetary_factor(&self) -> (r: Option<Dec>)
        ensures
            r == decimal_checked_div(self.closing_index, self.opening_index),
    {
        dec_div(self.closing_index, self.opening_index)
    }

    /// `closing / average`, the factor for P&L items.
    pub fn pl_factor(&self) -> (r: Option<Dec>)
        ensures
            r == decimal_checked_div(self.closing_index, self.average_index),
    {
        dec_div(self.closing_index, self.average_index)
    }

    /// The factor for an account type: one for monetary items.
    pub fn factor_for(&self, account_type: TranslationAccountType) -> (r: Option<Dec>)
        ensures
            r == match account_type {
                TranslationAccountType::BsMonetary => Some(Dec::one_spec()),
                TranslationAccountType::BsNonMonetary | TranslationAccountType::Equity => decimal_checked_div(
                    self.closing_index,
                    self.opening_index,
                ),
                _ => decimal_checked_div(self.closing_index, self.average_index),
            },
    {
        match account_type {
            TranslationAccountType::BsMonetary => Some(Dec::one()),
            TranslationAccountType::BsNonMonetary | TranslationAccountType::Equity => self.non_monetary_factor(),
            TranslationAccountType::PlRevenue | TranslationAccountType::PlExpense | TranslationAccountType::PlOci => {
                self.pl_factor()
            },
        }
    }

    /// Indices of a period from a price index series: the levels at the
    /// period's start and end, and the average of the observations inside
    /// the period (the midpoint of the two when there is none).  `None`
    /// when a level at either end is missing, an average is not
    /// computable, or an index is not positive.
    pub fn from_cpi_series(series: &GeneralPriceIndex, period_start: Date, period_end: Date) -> (r: Option<IndexedRestatement>)
        ensures
            r == cpi_restatement(series.observations@, period_start, period_end),
            r matches Some(ir) ==> {
                &&& lookup_result(series.observations@, period_start, Some(ir.opening_index))
                &&& lookup_result(series.observations@, period_end, Some(ir.closing_index))
                &&& ir.opening_index.units() > 0
                &&& ir.closing_index.units() > 0
                &&& ir.average_index.units() > 0
            },
            r matches Some(ir) ==> cpi_average(series.observations@, period_start, period_end, ir.opening_index,
                ir.closing_index) == Some(ir.average_index),
            (forall|j: int| 0 <= j < series.observations@.len() ==> !date_le(#[trigger] series.observations@[j].0, period_start))
                ==> r is None,
            (forall|j: int| 0 <= j < series.observations@.len() ==> !date_le(#[trigger] series.observations@[j].0, period_end))
                ==> r is None,
            ({
                let s = series.observations@;
                &&& exists|j: int| 0 <= j < s.len() && date_le(#[trigger] s[j].0, period_start)
                &&& exists|j: int| 0 <= j < s.len() && date_le(#[trigger] s[j].0, period_end)
                &&& forall|o: Dec, c: Dec|
                    lookup_result(s, period_start, Some(o)) && lookup_result(s, period_end, Some(c))
                        ==> #[trigger] cpi_indices_ok(s, period_start, period_end, o, c)
            }) ==> r is Some,
    {
        let ghost s = series.observations@;
        let opening_index = series.lookup(period_start)?;
        let closing_index = series.lookup(period_end)?;
        let ghost ok = cpi_indices_ok(s, period_start, period_end, opening_index, closing_index);
        let mut sum = Dec::zero();
        let mut count: u64 = 0;
        let mut i: usize = 0;
        while i < series.observations.len()
            invariant
                s == series.observations@,
                i <= s.len(),
                count <= i,
                period_fold(s.take(i as int), period_start, period_end) == Some((sum, count as int)),
                ok == cpi_indices_ok(s, period_start, period_end, opening_index, closing_index),
                lookup_result(s, period_start, Some(opening_index)),
                lookup_result(s, period_end, Some(closing_index)),
            decreases series.observations.len() - i,
        {
            let (d, level) = series.observations[i];
            proof {
                assert(s.take(i + 1).drop_last() =~= s.take(i as int));
                assert(s.take(i + 1).last() == s[i as int]);
            }
            if !d.is_before(&period_start) && !period_end.is_before(&d) {
                sum = match dec_add(sum, level) {
                    Some(x) => x,
                    None => {
                        proof {
                            lemma_period_fold_none(s, period_start, period_end, i + 1);
                        }
                        return None;
                    },
                };
                count = count + 1;
            }
            i = i + 1;
        }
        proof {
            assert(s.take(i as int) =~= s);
        }
        let average_index = if count == 0 {
            let s = dec_add(opening_index, closing_index)?;
            dec_div(s, Dec::from_i64(2))?
        } else {
            dec_div(sum, Dec::from_i64(count as i64))?
        };
        match IndexedRestatement::new(opening_index, closing_index, average_index) {
            Ok(ir) => Some(ir),
            Err(_) => None,
        }
    }
}

/// How an entity's trial balance is restated.
#[derive(Debug, Clone, Copy)]
pub enum RestatementPath {
    Standard,
    ClosingRate,
    Indexed(IndexedRestatement),
}

/// Whether a status calls for IAS 29 restatement.
pub open spec fn requires_restatement(h: HyperinflationStatus) -> bool {
    h == HyperinflationStatus::Hyperinflationary
}

/// The restatement path: standard translation outside hyperinflation;
/// otherwise indexed restatement when the functional currency has a price
/// series that yields indices for the period, else the closing rate.
pub fn select_restatement_path(
    hyperinflation: HyperinflationStatus,
    functional_currency: &str,
    cpi_series_by_currency: Option<&Vec<(String, GeneralPriceIndex)>>,
    period_start: Date,
    period_end: Date,
) -> (r: RestatementPath)
    requires
        cpi_series_by_currency matches Some(m) ==> sm_sorted(m@),
    ensures
        !requires_restatement(hyperinflation) ==> r is Standard,
        requires_restatement(hyperinflation) ==> r !is Standard,
        requires_restatement(hyperinflation) && cpi_series_by_currency is None ==> r is ClosingRate,
        requires_restatement(hyperinflation) && (cpi_series_by_currency matches Some(m) && !sm_map(m@).contains_key(
            functional_currency@,
        )) ==> r is ClosingRate,
        requires_restatement(hyperinflation) && (cpi_series_by_currency matches Some(m) && sm_map(m@).contains_key(
            functional_currency@,
        )) ==> r == match cpi_restatement(
            sm_map(cpi_series_by_currency->0@)[functional_currency@].observations@,
            period_start,
            period_end,
        ) {
            Some(ir) => RestatementPath::Indexed(ir),
            None => RestatementPath::ClosingRate,
        },
        r matches RestatementPath::Indexed(ir) ==> (cpi_series_by_currency matches Some(m) && sm_map(m@).contains_key(
            functional_currency@,
        ) && lookup_result(sm_map(m@)[functional_currency@].observations@, period_start, Some(ir.opening_index))
            && lookup_result(sm_map(m@)[functional_currency@].observations@, period_end, Some(ir.closing_index))),
{
    if hyperinflation != HyperinflationStatus::Hyperinflationary {
        return RestatementPath::Standard;
    }
    let map = match cpi_series_by_currency {
        Some(m) => m,
        None => {
            return RestatementPath::ClosingRate;
        },
    };
    let (found, i) = sm_find(map, functional_currency);
    if !found {
        return RestatementPath::ClosingRate;
    }
    proof {
        lemma_sm_at(map@, i as int);
    }
    match IndexedRestatement::from_cpi_series(&map[i].1, period_start, period_end) {
        Some(ir) => RestatementPath::Indexed(ir),
        None => RestatementPath::ClosingRate,
    }
}

} // verus!
