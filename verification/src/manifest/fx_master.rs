//! The group FX-rate master: per currency pair `FUNC/PRES`, the rates
//! observed in the period, the closing rate and the average rate.
use vstd::prelude::*;

use crate::config::{FxConfig, FxPolicyConfig, FxRateSource};
use crate::date::Date;
use crate::dec::{checked_sum, dec_div, decimal_checked_div, sum_decs, units_sum, Dec};
use crate::errors::GroupError;
use crate::manifest::expansion::ExpandedEntity;
use crate::sorted_map::{lemma_sm_at, lemma_sm_contains_iff, sm_find, sm_map, sm_sorted, sm_upsert};
use crate::text::str_eq;

verus! {

/// The FX-rate master of the manifest.
#[derive(Debug, Clone)]
pub struct FxRateMaster {
    pub base_currency: String,
    pub policy: FxPolicyConfig,
    /// Pair → (date → rate), pairs sorted, dates increasing.
    pub rates: Vec<(String, Vec<(Date, Dec)>)>,
    /// Pair → closing rate, sorted by pair.
    pub closing_by_pair: Vec<(String, Dec)>,
    /// Pair → average rate, sorted by pair.
    pub average_by_pair: Vec<(String, Dec)>,
}

/// `start <= d <= end`.
pub open spec fn in_period(d: Date, start: Date, end: Date) -> bool {
    !d.before(start) && !end.before(d)
}

/// The rates of a table dated within the period, in order.
pub open spec fn period_rates(table: Seq<(Date, Dec)>, start: Date, end: Date) -> Seq<(Date, Dec)>
    decreases table.len(),
{
    if table.len() == 0 {
        Seq::empty()
    } else if in_period(table.last().0, start, end) {
        period_rates(table.drop_last(), start, end).push(table.last())
    } else {
        period_rates(table.drop_last(), start, end)
    }
}

/// The non-zero rates of an inverted table dated within the period,
/// each inverted (`1 / rate`), in order.
pub open spec fn inverted_rates(table: Seq<(Date, Dec)>, start: Date, end: Date) -> Seq<(Date, Dec)>
    decreases table.len(),
{
    if table.len() == 0 {
        Seq::empty()
    } else if in_period(table.last().0, start, end) && table.last().1.units() != 0 {
        inverted_rates(table.drop_last(), start, end).push(
            (table.last().0, decimal_checked_div(Dec::one_spec(), table.last().1)->0),
        )
    } else {
        inverted_rates(table.drop_last(), start, end)
    }
}

/// The pair key `FUNC/PRES`.
pub open spec fn pair_key(func: Seq<char>, pres: Seq<char>) -> Seq<char> {
    func + "/"@ + pres
}

/// The pairs the entities need: each foreign functional currency against
/// the presentation currency.
pub open spec fn needed_pairs(entities: Seq<ExpandedEntity>, pres: Seq<char>) -> Set<Seq<char>> {
    Set::new(
        |p: Seq<char>|
            exists|k: int|
                0 <= k < entities.len() && (#[trigger] entities[k]).functional_currency@ != pres && p == pair_key(
                    entities[k].functional_currency@,
                    pres,
                ),
    )
}

/// The prefix of `s` before its first `/`, and the rest after it.
pub open spec fn split_slash(s: Seq<char>) -> Option<(Seq<char>, Seq<char>)>
    decreases s.len(),
{
    if s.len() == 0 {
        None
    } else if s[0] == '/' {
        Some((Seq::empty(), s.subrange(1, s.len() as int)))
    } else {
        match split_slash(s.subrange(1, s.len() as int)) {
            Some(x) => Some((seq![s[0]] + x.0, x.1)),
            None => None,
        }
    }
}

/// The rates a needed pair resolves to: the canonical table's rates in
/// the period, else the inverted table's, inverted; `None` when neither
/// table exists.
pub open spec fn resolved_rates(cfg: FxConfig, pair: Seq<char>, start: Date, end: Date) -> Option<Seq<(Date, Dec)>> {
    let m = sm_map(cfg.rates@);
    if m.contains_key(pair) {
        Some(period_rates(m[pair]@, start, end))
    } else {
        let parts = split_slash(pair)->0;
        let inv = parts.1 + "/"@ + parts.0;
        if m.contains_key(inv) {
            Some(inverted_rates(m[inv]@, start, end))
        } else {
            None
        }
    }
}

/// Every needed pair resolves to at least one rate.
pub open spec fn fx_covered(cfg: FxConfig, pres: Seq<char>, start: Date, end: Date, entities: Seq<ExpandedEntity>) -> bool {
    forall|p: Seq<char>| #[trigger] needed_pairs(entities, pres).contains(p) ==> (resolved_rates(cfg, p, start, end) matches Some(
        rs,
    ) && rs.len() > 0)
}

/// A `FUNC/PRES` key splits at its first `/`.
pub proof fn lemma_split_pair_key(a: Seq<char>, b: Seq<char>)
    ensures
        split_slash(a + "/"@ + b) is Some,
    decreases a.len(),
{
    let s = a + "/"@ + b;
    reveal_strlit("/");
    if a.len() == 0 {
        assert(s[0] == '/');
    } else if a[0] != '/' {
        lemma_split_pair_key(a.subrange(1, a.len() as int), b);
        assert(s.subrange(1, s.len() as int) =~= a.subrange(1, a.len() as int) + "/"@ + b);
    }
}

/// The key of the table a pair is inverted from: `PRES/FUNC` for
/// `FUNC/PRES`.
pub open spec fn inverse_key(pair: Seq<char>) -> Seq<char> {
    let parts = split_slash(pair)->0;
    parts.1 + "/"@ + parts.0
}

/// A needed pair's rates resolve and average: an inverted table inverts,
/// and the sum of the rates and its quotient by their count exist.
pub open spec fn pair_rates_ok(cfg: FxConfig, pair: Seq<char>, start: Date, end: Date) -> bool {
    let m = sm_map(cfg.rates@);
    &&& (!m.contains_key(pair) && m.contains_key(inverse_key(pair))) ==> inversion_ok(m[inverse_key(pair)]@, start, end)
    &&& resolved_rates(cfg, pair, start, end) matches Some(rs) ==> (checked_sum(rate_values(rs)) matches Some(total)
        && decimal_checked_div(total, Dec::int_spec(rs.len() as i64)) is Some)
}

/// The configuration serves the period and every needed pair's rates
/// resolve and average: the master is then built.
pub open spec fn fx_computable(cfg: FxConfig, pres: Seq<char>, start: Date, end: Date, entities: Seq<ExpandedEntity>) -> bool {
    &&& fx_valid(cfg, pres, start, end, entities)
    &&& forall|p: Seq<char>| #[trigger] needed_pairs(entities, pres).contains(p) ==> pair_rates_ok(cfg, p, start, end)
}

/// The configuration can serve the period.
pub open spec fn fx_valid(cfg: FxConfig, pres: Seq<char>, start: Date, end: Date, entities: Seq<ExpandedEntity>) -> bool {
    &&& cfg.rate_source != FxRateSource::HistoricalSeries
    &&& cfg.base_currency@ == pres
    &&& fx_covered(cfg, pres, start, end, entities)
}

/// Split a `FUNC/PRES` key at its first `/`.
pub fn split_pair(pair: &str) -> (r: Result<(String, String), GroupError>)
    ensures
        match split_slash(pair@) {
            Some(x) => r matches Ok(y) && y.0@ == x.0 && y.1@ == x.1,
            None => r matches Err(GroupError::Config(_)),
        },
{
    let n = pair.unicode_len();
    let mut i: usize = 0;
    while i < n
        invariant
            n == pair@.len(),
            i <= n,
            forall|j: int| 0 <= j < i ==> pair@[j] != '/',
        decreases n - i,
    {
        if pair.get_char(i) == '/' {
            let func = pair.substring_char(0, i).to_string();
            let pres = pair.substring_char(i + 1, n).to_string();
            proof {
                lemma_split_at(pair@, i as int);
            }
            return Ok((func, pres));
        }
        i = i + 1;
    }
    proof {
        lemma_split_none(pair@);
    }
    Err(GroupError::Config("malformed pair key '".to_string().concat(pair).concat("', expected FUNC/PRES")))
}

proof fn lemma_split_at(s: Seq<char>, i: int)
    requires
        0 <= i < s.len(),
        s[i] == '/',
        forall|j: int| 0 <= j < i ==> s[j] != '/',
    ensures
        split_slash(s) == Some((s.subrange(0, i), s.subrange(i + 1, s.len() as int))),
    decreases i,
{
    if i > 0 {
        let t = s.subrange(1, s.len() as int);
        lemma_split_at(t, i - 1);
        assert(seq![s[0]] + t.subrange(0, i - 1) =~= s.subrange(0, i));
        assert(t.subrange(i, t.len() as int) =~= s.subrange(i + 1, s.len() as int));
    } else {
        assert(s.subrange(0, 0) =~= Seq::<char>::empty());
    }
}

proof fn lemma_split_none(s: Seq<char>)
    requires
        forall|j: int| 0 <= j < s.len() ==> s[j] != '/',
    ensures
        split_slash(s) is None,
    decreases s.len(),
{
    if s.len() > 0 {
        let t = s.subrange(1, s.len() as int);
        assert forall|j: int| 0 <= j < t.len() implies t[j] != '/' by {
            assert(t[j] == s[j + 1]);
        }
        lemma_split_none(t);
    }
}

fn filter_period(table: &Vec<(Date, Dec)>, start: Date, end: Date) -> (r: Vec<(Date, Dec)>)
    ensures
        r@ == period_rates(table@, start, end),
{
    let mut out: Vec<(Date, Dec)> = Vec::new();
    let mut i: usize = 0;
    while i < table.len()
        invariant
            i <= table@.len(),
            out@ == period_rates(table@.take(i as int), start, end),
        decreases table.len() - i,
    {
        proof {
            assert(table@.take(i + 1).drop_last() =~= table@.take(i as int));
        }
        let (d, rate) = table[i];
        if !d.is_before(&start) && !end.is_before(&d) {
            out.push((d, rate));
        }
        i = i + 1;
    }
    proof {
        assert(table@.take(i as int) =~= table@);
    }
    out
}

/// Every non-zero rate of the table dated within the period inverts.
pub open spec fn inversion_ok(table: Seq<(Date, Dec)>, start: Date, end: Date) -> bool {
    forall|j: int| 0 <= j < table.len() && in_period(table[j].0, start, end) && table[j].1.units() != 0
        ==> #[trigger] decimal_checked_div(Dec::one_spec(), table[j].1) is Some
}

fn invert_period(table: &Vec<(Date, Dec)>, start: Date, end: Date) -> (r: Result<Vec<(Date, Dec)>, GroupError>)
    ensures
        r is Err ==> r matches Err(GroupError::Config(_)),
        inversion_ok(table@, start, end) ==> r is Ok,
        r matches Ok(v) ==> v@ == inverted_rates(table@, start, end),
{
    let one = Dec::one();
    let mut out: Vec<(Date, Dec)> = Vec::new();
    let mut i: usize = 0;
    while i < table.len()
        invariant
            i <= table@.len(),
            one == Dec::one_spec(),
            out@ == inverted_rates(table@.take(i as int), start, end),
        decreases table.len() - i,
    {
        proof {
            assert(table@.take(i + 1).drop_last() =~= table@.take(i as int));
        }
        let (d, rate) = table[i];
        proof {
            assert(table@[i as int] == (d, rate));
        }
        if !d.is_before(&start) && !end.is_before(&d) && !rate.is_zero() {
            match dec_div(one, rate) {
                Some(inv) => out.push((d, inv)),
                None => {
                    return Err(GroupError::Config("fx.rates: inverted rate overflows".to_string()));
                },
            }
        }
        i = i + 1;
    }
    proof {
        assert(table@.take(i as int) =~= table@);
    }
    Ok(out)
}

/// The rates of a table, without their dates.
pub open spec fn rate_values(t: Seq<(Date, Dec)>) -> Seq<Dec> {
    t.map_values(|x: (Date, Dec)| x.1)
}

/// `avg` is the mean of the rates: their sum (exact when every running
/// total fits) divided by their count.
pub open spec fn is_average(t: Seq<(Date, Dec)>, avg: Dec) -> bool {
    crate::dec::sum_fits(rate_values(t)) ==> exists|s: Dec|
        s.units() == units_sum(rate_values(t)) && avg == decimal_checked_div(s, Dec::int_spec(t.len() as i64))->0
}

/// The resolved master for the needed pairs, pair by pair: rates,
/// closing (last) rate, average rate.
pub open spec fn master_entries_ok(
    cfg: FxConfig,
    start: Date,
    end: Date,
    keys: Seq<(String, ())>,
    rates: Seq<(String, Vec<(Date, Dec)>)>,
    closing: Seq<(String, Dec)>,
    average: Seq<(String, Dec)>,
    k: int,
) -> bool {
    &&& rates.len() == k && closing.len() == k && average.len() == k
    &&& forall|t: int| 0 <= t < k ==> {
        let p = (#[trigger] keys[t]).0@;
        &&& rates[t].0@ == p
        &&& closing[t].0@ == p
        &&& average[t].0@ == p
        &&& resolved_rates(cfg, p, start, end) matches Some(rs) && rs.len() > 0 && rates[t].1@ == rs
        &&& closing[t].1 == rates[t].1@.last().1
        &&& is_average(rates[t].1@, average[t].1)
    }
}

/// Build and validate the FX-rate master of the period: every entity's
/// foreign functional currency against the presentation currency, each
/// pair's rates in the period (taken from the inverted pair, inverted,
/// when only that one is configured), its closing and its average rate.
pub fn build_fx_master(
    cfg: &FxConfig,
    presentation_currency: &str,
    period_start: Date,
    period_end: Date,
    expanded_entities: &[ExpandedEntity],
) -> (r: Result<FxRateMaster, GroupError>)
    requires
        sm_sorted(cfg.rates@),
    ensures
        r is Err ==> r matches Err(GroupError::Config(_)),
        !fx_valid(*cfg, presentation_currency@, period_start, period_end, expanded_entities@) ==> r is Err,
        fx_computable(*cfg, presentation_currency@, period_start, period_end, expanded_entities@) ==> r is Ok,
        r matches Ok(m) ==> {
            let needed = needed_pairs(expanded_entities@, presentation_currency@);
            &&& fx_valid(*cfg, presentation_currency@, period_start, period_end, expanded_entities@)
            &&& m.base_currency@ == presentation_currency@
            &&& m.policy == cfg.policy
            &&& sm_sorted(m.rates@)
            &&& sm_sorted(m.closing_by_pair@)
            &&& sm_sorted(m.average_by_pair@)
            &&& forall|p: Seq<char>| #[trigger] sm_map(m.rates@).contains_key(p) <==> needed.contains(p)
            &&& forall|p: Seq<char>| #[trigger] sm_map(m.closing_by_pair@).contains_key(p) <==> needed.contains(p)
            &&& forall|p: Seq<char>| #[trigger] sm_map(m.average_by_pair@).contains_key(p) <==> needed.contains(p)
            &&& forall|p: Seq<char>| #[trigger] needed.contains(p) ==> {
                &&& sm_map(m.rates@)[p]@ == resolved_rates(*cfg, p, period_start, period_end)->0
                &&& sm_map(m.closing_by_pair@)[p] == sm_map(m.rates@)[p]@.last().1
                &&& is_average(sm_map(m.rates@)[p]@, sm_map(m.average_by_pair@)[p])
            }
        },
{
    let ghost pres = presentation_currency@;
    let ghost ents = expanded_entities@;
    match cfg.rate_source {
        FxRateSource::HistoricalSeries => {
            return Err(GroupError::Config(
                "rate_source: historical_series not supported in v5.0, use inline or user_supplied".to_string(),
            ));
        },
        _ => {},
    }
    if !str_eq(cfg.base_currency.as_str(), presentation_currency) {
        return Err(GroupError::Config(
            "fx.base_currency ".to_string().concat(cfg.base_currency.as_str()).concat(" does not match group presentation_currency ").concat(
                presentation_currency,
            ),
        ));
    }
    let mut needed: Vec<(String, ())> = Vec::new();
    let mut i: usize = 0;
    proof {
        assert(sm_map(needed@).dom() =~= needed_pairs(ents.take(0), pres)) by {
            assert forall|p: Seq<char>| !needed_pairs(ents.take(0), pres).contains(p) by {}
        }
    }
    while i < expanded_entities.len()
        invariant
            i <= ents.len(),
            ents == expanded_entities@,
            pres == presentation_currency@,
            sm_sorted(needed@),
            sm_map(needed@).dom() == needed_pairs(ents.take(i as int), pres),
        decreases ents.len() - i,
    {
        let e = &expanded_entities[i];
        proof {
            assert forall|p: Seq<char>| needed_pairs(ents.take(i as int), pres).contains(p) implies #[trigger] needed_pairs(
                ents.take(i + 1),
                pres,
            ).contains(p) by {
                let k = choose|k: int|
                    0 <= k < ents.take(i as int).len() && (#[trigger] ents.take(i as int)[k]).functional_currency@ != pres && p == pair_key(
                        ents.take(i as int)[k].functional_currency@,
                        pres,
                    );
                assert(ents.take(i + 1)[k] == ents.take(i as int)[k]);
            }
        }
        if !str_eq(e.functional_currency.as_str(), presentation_currency) {
            let key = e.functional_currency.clone().concat("/").concat(presentation_currency);
            sm_upsert(&mut needed, key, ());
            proof {
                assert(ents.take(i + 1)[i as int] == e);
                assert(needed_pairs(ents.take(i + 1), pres).contains(pair_key(e.functional_currency@, pres)));
                assert forall|p: Seq<char>| #[trigger] needed_pairs(ents.take(i + 1), pres).contains(p) implies sm_map(needed@).contains_key(p) by {
                    let k = choose|k: int|
                        0 <= k < ents.take(i + 1).len() && (#[trigger] ents.take(i + 1)[k]).functional_currency@ != pres && p == pair_key(
                            ents.take(i + 1)[k].functional_currency@,
                            pres,
                        );
                    if k < i {
                        assert(ents.take(i as int)[k] == ents.take(i + 1)[k]);
                        assert(needed_pairs(ents.take(i as int), pres).contains(p));
                    }
                }
                assert(sm_map(needed@).dom() =~= needed_pairs(ents.take(i + 1), pres));
            }
        } else {
            proof {
                assert forall|p: Seq<char>| #[trigger] needed_pairs(ents.take(i + 1), pres).contains(p) implies needed_pairs(
                    ents.take(i as int),
                    pres,
                ).contains(p) by {
                    let k = choose|k: int|
                        0 <= k < ents.take(i + 1).len() && (#[trigger] ents.take(i + 1)[k]).functional_currency@ != pres && p == pair_key(
                            ents.take(i + 1)[k].functional_currency@,
                            pres,
                        );
                    assert(k != i);
                    assert(ents.take(i as int)[k] == ents.take(i + 1)[k]);
                }
                assert(sm_map(needed@).dom() =~= needed_pairs(ents.take(i + 1), pres));
            }
        }
        i = i + 1;
    }
    proof {
        assert(ents.take(i as int) =~= ents);
    }
    let ghost ok = fx_computable(*cfg, pres, period_start, period_end, ents);
    let mut rates: Vec<(String, Vec<(Date, Dec)>)> = Vec::new();
    let mut closing: Vec<(String, Dec)> = Vec::new();
    let mut average: Vec<(String, Dec)> = Vec::new();
    let mut k: usize = 0;
    while k < needed.len()
        invariant
            k <= needed@.len(),
            sm_sorted(needed@),
            sm_sorted(cfg.rates@),
            sm_map(needed@).dom() == needed_pairs(ents, pres),
            master_entries_ok(*cfg, period_start, period_end, needed@, rates@, closing@, average@, k as int),
            forall|t: int| 0 <= t < k ==> #[trigger] needed@[t].0@ == rates@[t].0@,
            ok == fx_computable(*cfg, pres, period_start, period_end, ents),
            ents == expanded_entities@,
            pres == presentation_currency@,
        decreases needed@.len() - k,
    {
        let pair = &needed[k].0;
        let ghost p = pair@;
        proof {
            if ok {
                lemma_sm_at(needed@, k as int);
                assert(needed_pairs(ents, pres).contains(p));
                assert(pair_rates_ok(*cfg, p, period_start, period_end));
                let t = choose|t: int|
                    0 <= t < ents.len() && (#[trigger] ents[t]).functional_currency@ != pres && p == pair_key(
                        ents[t].functional_currency@,
                        pres,
                    );
                lemma_split_pair_key(ents[t].functional_currency@, pres);
            }
        }
        let (func, pres2) = match split_pair(pair.as_str()) {
            Ok(x) => x,
            Err(e) => {
                return Err(e);
            },
        };
        let inverted_key = pres2.concat("/").concat(func.as_str());
        let (found, idx) = sm_find(&cfg.rates, pair.as_str());
        let filtered = if found {
            proof {
                lemma_sm_at(cfg.rates@, idx as int);
            }
            let v = filter_period(&cfg.rates[idx].1, period_start, period_end);
            proof {
                assert(resolved_rates(*cfg, p, period_start, period_end) == Some(v@));
            }
            v
        } else {
            let (found2, idx2) = sm_find(&cfg.rates, inverted_key.as_str());
            if found2 {
                proof {
                    lemma_sm_at(cfg.rates@, idx2 as int);
                }
                proof {
                    assert(inverted_key@ == pres2@ + "/"@ + func@);
                    if ok {
                        assert(inverted_key@ == inverse_key(p));
                        assert(inversion_ok(cfg.rates@[idx2 as int].1@, period_start, period_end));
                    }
                }
                match invert_period(&cfg.rates[idx2].1, period_start, period_end) {
                    Ok(v) => {
                        proof {
                            assert(inverted_key@ == pres2@ + "/"@ + func@);
                            assert(resolved_rates(*cfg, p, period_start, period_end) == Some(v@));
                        }
                        v
                    },
                    Err(e) => {
                        return Err(e);
                    },
                }
            } else {
                proof {
                    lemma_sm_at(needed@, k as int);
                    assert(needed_pairs(ents, pres).contains(p));
                    assert(resolved_rates(*cfg, p, period_start, period_end) is None);
                }
                return Err(
                    GroupError::Config("fx.rates missing pair ".to_string().concat(pair.as_str()).concat(" for the period")),
                );
            }
        };
        if filtered.len() == 0 {
            proof {
                lemma_sm_at(needed@, k as int);
                assert(needed_pairs(ents, pres).contains(p));
            }
            return Err(GroupError::Config("fx.rates missing pair ".to_string().concat(pair.as_str()).concat(" for the period")));
        }
        let last = filtered[filtered.len() - 1].1;
        let mut values: Vec<Dec> = Vec::new();
        let mut j: usize = 0;
        while j < filtered.len()
            invariant
                j <= filtered@.len(),
                values@ == rate_values(filtered@).take(j as int),
            decreases filtered.len() - j,
        {
            values.push(filtered[j].1);
            proof {
                assert(values@ =~= rate_values(filtered@).take(j + 1));
            }
            j = j + 1;
        }
        proof {
            assert(rate_values(filtered@).take(j as int) =~= rate_values(filtered@));
        }
        let sum = match sum_decs(&values) {
            Some(x) => x,
            None => {
                return Err(GroupError::Config("fx.rates: rate sum overflows".to_string()));
            },
        };
        let count = Dec::from_i64(#[verifier::truncate] (filtered.len() as i64));
        let avg = match dec_div(sum, count) {
            Some(x) => x,
            None => {
                return Err(GroupError::Config("fx.rates: average rate overflows".to_string()));
            },
        };
        proof {
            assert(is_average(filtered@, avg));
        }
        let ghost r0 = rates@;
        let ghost c0 = closing@;
        let ghost a0 = average@;
        rates.push((pair.clone(), filtered));
        closing.push((pair.clone(), last));
        average.push((pair.clone(), avg));
        proof {
            assert forall|t: int| 0 <= t < k + 1 implies {
                let q = (#[trigger] needed@[t]).0@;
                &&& rates@[t].0@ == q
                &&& closing@[t].0@ == q
                &&& average@[t].0@ == q
                &&& resolved_rates(*cfg, q, period_start, period_end) matches Some(rs) && rs.len() > 0 && rates@[t].1@ == rs
                &&& closing@[t].1 == rates@[t].1@.last().1
                &&& is_average(rates@[t].1@, average@[t].1)
            } by {
                if t < k {
                    assert(rates@[t] == r0[t] && closing@[t] == c0[t] && average@[t] == a0[t]);
                }
            }
        }
        k = k + 1;
    }
    proof {
        let n = needed@;
        assert forall|a: int, b: int| 0 <= a < b < rates@.len() implies crate::text::seq_lt(#[trigger] rates@[a].0@, #[trigger] rates@[b].0@) by {
            assert(n[a].0@ == rates@[a].0@ && n[b].0@ == rates@[b].0@);
        }
        assert forall|a: int, b: int| 0 <= a < b < closing@.len() implies crate::text::seq_lt(#[trigger] closing@[a].0@, #[trigger] closing@[b].0@) by {
            assert(n[a].0@ == closing@[a].0@ && n[b].0@ == closing@[b].0@);
        }
        assert forall|a: int, b: int| 0 <= a < b < average@.len() implies crate::text::seq_lt(#[trigger] average@[a].0@, #[trigger] average@[b].0@) by {
            assert(n[a].0@ == average@[a].0@ && n[b].0@ == average@[b].0@);
        }
        let needed_set = needed_pairs(ents, pres);
        assert forall|q: Seq<char>| #[trigger] sm_map(rates@).contains_key(q) <==> needed_set.contains(q) by {
            lemma_sm_contains_iff(rates@, q);
            lemma_sm_contains_iff(needed@, q);
            if sm_map(rates@).contains_key(q) {
                let t = choose|t: int| 0 <= t < rates@.len() && #[trigger] rates@[t].0@ == q;
                assert(n[t].0@ == q);
            }
            if needed_set.contains(q) {
                let t = choose|t: int| 0 <= t < n.len() && #[trigger] n[t].0@ == q;
                assert(rates@[t].0@ == q);
            }
        }
        assert forall|q: Seq<char>| #[trigger] sm_map(closing@).contains_key(q) <==> needed_set.contains(q) by {
            lemma_sm_contains_iff(closing@, q);
            lemma_sm_contains_iff(needed@, q);
            if sm_map(closing@).contains_key(q) {
                let t = choose|t: int| 0 <= t < closing@.len() && #[trigger] closing@[t].0@ == q;
                assert(n[t].0@ == q);
            }
            if needed_set.contains(q) {
                let t = choose|t: int| 0 <= t < n.len() && #[trigger] n[t].0@ == q;
                assert(closing@[t].0@ == q);
            }
        }
        assert forall|q: Seq<char>| #[trigger] sm_map(average@).contains_key(q) <==> needed_set.contains(q) by {
            lemma_sm_contains_iff(average@, q);
            lemma_sm_contains_iff(needed@, q);
            if sm_map(average@).contains_key(q) {
                let t = choose|t: int| 0 <= t < average@.len() && #[trigger] average@[t].0@ == q;
                assert(n[t].0@ == q);
            }
            if needed_set.contains(q) {
                let t = choose|t: int| 0 <= t < n.len() && #[trigger] n[t].0@ == q;
                assert(average@[t].0@ == q);
            }
        }
        assert forall|q: Seq<char>| #[trigger] needed_set.contains(q) implies {
            &&& sm_map(rates@)[q]@ == resolved_rates(*cfg, q, period_start, period_end)->0
            &&& sm_map(closing@)[q] == sm_map(rates@)[q]@.last().1
            &&& is_average(sm_map(rates@)[q]@, sm_map(average@)[q])
            &&& (resolved_rates(*cfg, q, period_start, period_end) matches Some(rs) && rs.len() > 0)
        } by {
            lemma_sm_contains_iff(needed@, q);
            let t = choose|t: int| 0 <= t < n.len() && #[trigger] n[t].0@ == q;
            assert(rates@[t].0@ == q);
            lemma_sm_at(rates@, t);
            lemma_sm_at(closing@, t);
            lemma_sm_at(average@, t);
        }
    }
    Ok(
        FxRateMaster {
            base_currency: presentation_currency.to_string(),
            policy: cfg.policy,
            rates,
            closing_by_pair: closing,
            average_by_pair: average,
        },
    )
}

} // verus!
