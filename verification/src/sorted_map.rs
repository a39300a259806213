//! String-keyed maps held as vectors of `(key, value)` pairs sorted
//! strictly by key: the order a `BTreeMap<String, _>` walks its entries
//! in.  [`sm_map`] is the map such a vector denotes.
use vstd::multiset::Multiset;
use vstd::prelude::*;

use crate::text::{lemma_seq_lt_asym, lemma_seq_lt_irrefl, lemma_seq_lt_total, lemma_seq_lt_trans, seq_lt, str_eq, str_lt};

verus! {

/// Keys strictly increasing along the vector.
pub open spec fn sm_sorted<V>(s: Seq<(String, V)>) -> bool {
    forall|i: int, j: int| 0 <= i < j < s.len() ==> seq_lt(#[trigger] s[i].0@, #[trigger] s[j].0@)
}

/// The entries as a map from key to value.
pub open spec fn sm_map<V>(s: Seq<(String, V)>) -> Map<Seq<char>, V>
    decreases s.len(),
{
    if s.len() == 0 {
        Map::empty()
    } else {
        sm_map(s.drop_last()).insert(s.last().0@, s.last().1)
    }
}

/// The keys, in order.
pub open spec fn sm_keys<V>(s: Seq<(String, V)>) -> Seq<Seq<char>> {
    s.map_values(|p: (String, V)| p.0@)
}

pub proof fn lemma_sm_contains_iff<V>(s: Seq<(String, V)>, k: Seq<char>)
    ensures
        sm_map(s).contains_key(k) <==> exists|i: int| 0 <= i < s.len() && #[trigger] s[i].0@ == k,
    decreases s.len(),
{
    if s.len() > 0 {
        lemma_sm_contains_iff(s.drop_last(), k);
        if sm_map(s.drop_last()).contains_key(k) {
            let i = choose|i: int| 0 <= i < s.drop_last().len() && #[trigger] s.drop_last()[i].0@ == k;
            assert(s[i].0@ == k);
        }
        if exists|i: int| 0 <= i < s.len() && #[trigger] s[i].0@ == k {
            let i = choose|i: int| 0 <= i < s.len() && #[trigger] s[i].0@ == k;
            if i < s.len() - 1 {
                assert(s.drop_last()[i].0@ == k);
            }
        }
    }
}

/// In a sorted vector, the map value of the key at index `i` is `s[i].1`.
pub proof fn lemma_sm_at<V>(s: Seq<(String, V)>, i: int)
    requires
        sm_sorted(s),
        0 <= i < s.len(),
    ensures
        sm_map(s).contains_key(s[i].0@),
        sm_map(s)[s[i].0@] == s[i].1,
    decreases s.len(),
{
    if i < s.len() - 1 {
        assert(sm_sorted(s.drop_last()));
        lemma_sm_at(s.drop_last(), i);
        assert(seq_lt(s[i].0@, s.last().0@));
        lemma_seq_lt_irrefl(s[i].0@);
    }
}

proof fn lemma_sm_update<V>(s: Seq<(String, V)>, i: int, p: (String, V))
    requires
        sm_sorted(s),
        0 <= i < s.len(),
        p.0@ == s[i].0@,
    ensures
        sm_sorted(s.update(i, p)),
        sm_map(s.update(i, p)) == sm_map(s).insert(p.0@, p.1),
    decreases s.len(),
{
    let t = s.update(i, p);
    assert forall|a: int, b: int| 0 <= a < b < t.len() implies seq_lt(#[trigger] t[a].0@, #[trigger] t[b].0@) by {
        assert(seq_lt(s[a].0@, s[b].0@));
    }
    if i == s.len() - 1 {
        assert(t.drop_last() =~= s.drop_last());
        assert(sm_map(t) =~= sm_map(s).insert(p.0@, p.1));
    } else {
        assert(t.drop_last() =~= s.drop_last().update(i, p));
        assert(sm_sorted(s.drop_last()));
        lemma_sm_update(s.drop_last(), i, p);
        assert(seq_lt(s[i].0@, s.last().0@));
        lemma_seq_lt_irrefl(s[i].0@);
        assert(sm_map(t) =~= sm_map(s).insert(p.0@, p.1));
    }
}

proof fn lemma_sm_insert<V>(s: Seq<(String, V)>, i: int, p: (String, V))
    requires
        sm_sorted(s),
        0 <= i <= s.len(),
        forall|j: int| 0 <= j < i ==> seq_lt(#[trigger] s[j].0@, p.0@),
        forall|j: int| i <= j < s.len() ==> seq_lt(p.0@, #[trigger] s[j].0@),
    ensures
        sm_sorted(s.insert(i, p)),
        sm_map(s.insert(i, p)) == sm_map(s).insert(p.0@, p.1),
    decreases s.len(),
{
    let t = s.insert(i, p);
    assert forall|a: int, b: int| 0 <= a < b < t.len() implies seq_lt(#[trigger] t[a].0@, #[trigger] t[b].0@) by {
        if b < i {
            assert(seq_lt(s[a].0@, s[b].0@));
        } else if b == i {
        } else if a < i {
            assert(seq_lt(s[a].0@, s[b - 1].0@));
        } else if a == i {
        } else {
            assert(seq_lt(s[a - 1].0@, s[b - 1].0@));
        }
    }
    if i == s.len() {
        assert(t.drop_last() =~= s);
    } else {
        assert(t.drop_last() =~= s.drop_last().insert(i, p));
        assert(sm_sorted(s.drop_last()));
        lemma_sm_insert(s.drop_last(), i, p);
        assert(seq_lt(p.0@, s.last().0@));
        lemma_seq_lt_irrefl(p.0@);
        assert(sm_map(t) =~= sm_map(s).insert(p.0@, p.1));
    }
}

/// Position of `key`: the first index whose key does not sort before it,
/// and whether that index holds `key` itself.
pub fn sm_find<V>(v: &Vec<(String, V)>, key: &str) -> (r: (bool, usize))
    requires
        sm_sorted(v@),
    ensures
        r.1 <= v@.len(),
        forall|j: int| 0 <= j < r.1 ==> seq_lt(#[trigger] v@[j].0@, key@),
        r.0 <==> (r.1 < v@.len() && v@[r.1 as int].0@ == key@),
        r.0 <==> sm_map(v@).contains_key(key@),
        !r.0 ==> forall|j: int| r.1 <= j < v@.len() ==> seq_lt(key@, #[trigger] v@[j].0@),
{
    let mut i: usize = 0;
    while i < v.len()
        invariant
            i <= v@.len(),
            sm_sorted(v@),
            forall|j: int| 0 <= j < i ==> seq_lt(#[trigger] v@[j].0@, key@),
        ensures
            i <= v@.len(),
            forall|j: int| 0 <= j < i ==> seq_lt(#[trigger] v@[j].0@, key@),
            i < v@.len() ==> !seq_lt(v@[i as int].0@, key@),
        decreases v.len() - i,
    {
        if !str_lt(v[i].0.as_str(), key) {
            break;
        }
        i = i + 1;
    }
    let found = i < v.len() && str_eq(v[i].0.as_str(), key);
    proof {
        if !found {
            assert forall|j: int| i <= j < v@.len() implies seq_lt(key@, #[trigger] v@[j].0@) by {
                if j == i {
                    lemma_seq_lt_total(v@[j].0@, key@);
                } else {
                    lemma_seq_lt_total(v@[i as int].0@, key@);
                    assert(seq_lt(v@[i as int].0@, v@[j].0@));
                    lemma_seq_lt_trans(key@, v@[i as int].0@, v@[j].0@);
                }
            }
        }
        lemma_sm_contains_iff(v@, key@);
        if sm_map(v@).contains_key(key@) {
            let k = choose|k: int| 0 <= k < v@.len() && #[trigger] v@[k].0@ == key@;
            if k < i {
                lemma_seq_lt_irrefl(key@);
            } else if !found {
                lemma_seq_lt_irrefl(key@);
            }
        }
    }
    (found, i)
}

/// Set `key` to `val`, inserting the key in order when absent.
pub fn sm_upsert<V>(v: &mut Vec<(String, V)>, key: String, val: V)
    requires
        sm_sorted(old(v)@),
    ensures
        sm_sorted(final(v)@),
        sm_map(final(v)@) == sm_map(old(v)@).insert(key@, val),
{
    let (found, i) = sm_find(v, key.as_str());
    let ghost k = key@;
    let ghost x = val;
    let p = (key, val);
    if found {
        proof {
            lemma_sm_update(v@, i as int, p);
        }
        v.set(i, p);
    } else {
        proof {
            lemma_sm_insert(v@, i as int, p);
        }
        v.insert(i, p);
    }
}

/// Keys non-decreasing along the vector.
pub open spec fn keys_ordered<V>(s: Seq<(String, V)>) -> bool {
    forall|i: int, j: int| 0 <= i < j < s.len() ==> !seq_lt(#[trigger] s[j].0@, #[trigger] s[i].0@)
}

/// An item ordered by a string key.
pub trait SortKey {
    spec fn sort_key(&self) -> Seq<char>;

    fn key_str(&self) -> (r: &str)
        ensures
            r@ == self.sort_key(),
    ;
}

impl SortKey for String {
    open spec fn sort_key(&self) -> Seq<char> {
        self@
    }

    fn key_str(&self) -> (r: &str) {
        self.as_str()
    }
}

impl<V> SortKey for (String, V) {
    open spec fn sort_key(&self) -> Seq<char> {
        self.0@
    }

    fn key_str(&self) -> (r: &str) {
        self.0.as_str()
    }
}

/// Keys non-decreasing along the sequence.
pub open spec fn key_sorted<T: SortKey>(s: Seq<T>) -> bool {
    forall|i: int, j: int| 0 <= i < j < s.len() ==> !seq_lt(#[trigger] s[j].sort_key(), #[trigger] s[i].sort_key())
}

/// `r` is `v` rearranged by `idx` (`r[a]` is `v[idx[a]]`, each item of
/// `v` used once), items with equal keys keeping their order in `v`.
pub open spec fn stable_rearrangement<T: SortKey>(r: Seq<T>, v: Seq<T>, idx: Seq<int>) -> bool {
    &&& idx.len() == r.len()
    &&& r.len() == v.len()
    &&& forall|a: int| 0 <= a < r.len() ==> 0 <= #[trigger] idx[a] < v.len() && r[a] == v[idx[a]]
    &&& forall|a: int, b: int| 0 <= a < b < r.len() ==> #[trigger] idx[a] != #[trigger] idx[b]
    &&& forall|a: int, b: int|
        0 <= a < b < r.len() && (#[trigger] r[a]).sort_key() == (#[trigger] r[b]).sort_key() ==> idx[a] < idx[b]
}

/// Sort by key, keeping items with equal keys in their input order.
/// The result holds the same items.
pub fn sort_keyed<T: SortKey>(v: Vec<T>) -> (r: Vec<T>)
    ensures
        key_sorted(r@),
        r@.to_multiset() == v@.to_multiset(),
        r@.len() == v@.len(),
        exists|idx: Seq<int>| stable_rearrangement(r@, v@, idx),
{
    broadcast use vstd::seq_lib::group_to_multiset_ensures;
    broadcast use vstd::multiset::group_multiset_axioms;

    let ghost orig = v@;
    let mut src = v;
    let mut out: Vec<T> = Vec::new();
    let ghost mut idx: Seq<int> = Seq::empty();
    proof {
        assert(out@.to_multiset() =~= Multiset::empty());
        assert(out@.to_multiset().add(src@.to_multiset()) =~= orig.to_multiset());
        assert(src@ =~= orig.subrange(0, orig.len() as int));
    }
    while src.len() > 0
        invariant
            key_sorted(out@),
            out@.to_multiset().add(src@.to_multiset()) == orig.to_multiset(),
            out@.len() + src@.len() == orig.len(),
            src@ == orig.subrange(out@.len() as int, orig.len() as int),
            idx.len() == out@.len(),
            forall|a: int| 0 <= a < out@.len() ==> 0 <= #[trigger] idx[a] < out@.len() && out@[a] == orig[idx[a]],
            forall|a: int, b: int| 0 <= a < b < out@.len() ==> #[trigger] idx[a] != #[trigger] idx[b],
            forall|a: int, b: int|
                0 <= a < b < out@.len() && (#[trigger] out@[a]).sort_key() == (#[trigger] out@[b]).sort_key() ==> idx[a]
                    < idx[b],
        decreases src.len(),
    {
        let ghost s0 = src@;
        let ghost t = out@.len() as int;
        let x = src.remove(0);
        proof {
            assert(x == orig[t]);
            assert(src@ =~= orig.subrange(t + 1, orig.len() as int));
        }
        proof {
            vstd::seq_lib::to_multiset_remove(s0, 0);
            assert(s0[0] == x);
            vstd::seq_lib::to_multiset_contains(s0, x);
        }
        let mut p: usize = 0;
        while p < out.len()
            invariant
                p <= out@.len(),
                key_sorted(out@),
                forall|j: int| 0 <= j < p ==> !seq_lt(x.sort_key(), #[trigger] out@[j].sort_key()),
            ensures
                p <= out@.len(),
                forall|j: int| 0 <= j < p ==> !seq_lt(x.sort_key(), #[trigger] out@[j].sort_key()),
                p < out@.len() ==> seq_lt(x.sort_key(), out@[p as int].sort_key()),
            decreases out.len() - p,
        {
            if str_lt(x.key_str(), out[p].key_str()) {
                break;
            }
            p = p + 1;
        }
        let ghost o0 = out@;
        proof {
            assert forall|j: int| p <= j < o0.len() implies seq_lt(x.sort_key(), #[trigger] o0[j].sort_key()) by {
                if j > p && o0[p as int].sort_key() != o0[j].sort_key() {
                    lemma_seq_lt_total(o0[p as int].sort_key(), o0[j].sort_key());
                    if seq_lt(o0[p as int].sort_key(), o0[j].sort_key()) {
                        lemma_seq_lt_trans(x.sort_key(), o0[p as int].sort_key(), o0[j].sort_key());
                    }
                }
            }
        }
        let ghost i0 = idx;
        out.insert(p, x);
        proof {
            idx = i0.insert(p as int, t);
            assert forall|a: int| 0 <= a < out@.len() implies 0 <= #[trigger] idx[a] < out@.len() && out@[a] == orig[idx[a]] by {
                if a < p {
                    assert(out@[a] == o0[a] && idx[a] == i0[a]);
                } else if a > p {
                    assert(out@[a] == o0[a - 1] && idx[a] == i0[a - 1]);
                }
            }
            assert forall|a: int, b: int| 0 <= a < b < out@.len() implies #[trigger] idx[a] != #[trigger] idx[b] by {
                if a < p && b < p {
                    assert(idx[a] == i0[a] && idx[b] == i0[b]);
                } else if a < p && b > p {
                    assert(idx[a] == i0[a] && idx[b] == i0[b - 1]);
                } else if a > p {
                    assert(idx[a] == i0[a - 1] && idx[b] == i0[b - 1]);
                } else if a == p {
                    assert(idx[b] == i0[b - 1]);
                } else {
                    assert(idx[a] == i0[a]);
                }
            }
            assert forall|a: int, b: int|
                0 <= a < b < out@.len() && (#[trigger] out@[a]).sort_key() == (#[trigger] out@[b]).sort_key() implies idx[a]
                    < idx[b] by {
                if a < p && b < p {
                    assert(idx[a] == i0[a] && idx[b] == i0[b]);
                    assert(out@[a] == o0[a] && out@[b] == o0[b]);
                } else if a < p && b > p {
                    assert(idx[a] == i0[a] && idx[b] == i0[b - 1]);
                    assert(out@[a] == o0[a] && out@[b] == o0[b - 1]);
                } else if a > p {
                    assert(idx[a] == i0[a - 1] && idx[b] == i0[b - 1]);
                    assert(out@[a] == o0[a - 1] && out@[b] == o0[b - 1]);
                } else if a == p {
                    assert(out@[b] == o0[b - 1]);
                    assert(seq_lt(x.sort_key(), o0[b - 1].sort_key()));
                    lemma_seq_lt_irrefl(x.sort_key());
                } else {
                    assert(idx[a] == i0[a]);
                }
            }
            vstd::seq_lib::to_multiset_insert(o0, p as int, x);
            assert forall|a: int, b: int| 0 <= a < b < out@.len() implies !seq_lt(#[trigger] out@[b].sort_key(), #[trigger] out@[a].sort_key()) by {
                if b < p {
                    assert(out@[a] == o0[a] && out@[b] == o0[b]);
                } else if b == p {
                    assert(out@[a] == o0[a]);
                } else if a < p {
                    assert(out@[a] == o0[a] && out@[b] == o0[b - 1]);
                    if seq_lt(o0[b - 1].sort_key(), o0[a].sort_key()) {
                        lemma_seq_lt_trans(x.sort_key(), o0[b - 1].sort_key(), o0[a].sort_key());
                    }
                } else if a == p {
                    assert(out@[b] == o0[b - 1]);
                    lemma_seq_lt_asym(x.sort_key(), o0[b - 1].sort_key());
                } else {
                    assert(out@[a] == o0[a - 1] && out@[b] == o0[b - 1]);
                }
            }
            assert(out@.to_multiset().add(src@.to_multiset()) =~= orig.to_multiset());
        }
    }
    proof {
        assert(src@.to_multiset() =~= Multiset::empty());
        assert(out@.to_multiset() =~= orig.to_multiset());
        assert(stable_rearrangement(out@, orig, idx));
    }
    out
}

/// Sort by key, keeping entries with equal keys in their input order.
/// The result holds the same entries.
pub fn sort_by_key<V>(v: Vec<(String, V)>) -> (r: Vec<(String, V)>)
    ensures
        keys_ordered(r@),
        r@.to_multiset() == v@.to_multiset(),
        r@.len() == v@.len(),
{
    let r = sort_keyed(v);
    proof {
        assert forall|i: int, j: int| 0 <= i < j < r@.len() implies !seq_lt(#[trigger] r@[j].0@, #[trigger] r@[i].0@) by {
            assert(r@[j].sort_key() == r@[j].0@);
            assert(r@[i].sort_key() == r@[i].0@);
        }
    }
    r
}

/// Two sequences holding the same items still do after both are mapped
/// through the same function.
pub proof fn lemma_multiset_map<A, B>(s1: Seq<A>, s2: Seq<A>, f: spec_fn(A) -> B)
    requires
        s1.to_multiset() == s2.to_multiset(),
    ensures
        s1.map_values(f).to_multiset() == s2.map_values(f).to_multiset(),
    decreases s1.len(),
{
    broadcast use vstd::seq_lib::group_to_multiset_ensures;
    broadcast use vstd::multiset::group_multiset_axioms;

    assert(s1.to_multiset().len() == s1.len());
    assert(s2.to_multiset().len() == s2.len());
    if s1.len() == 0 {
        assert(s1.map_values(f) =~= Seq::<B>::empty());
        assert(s2.map_values(f) =~= Seq::<B>::empty());
    } else {
        let a = s1.last();
        let t1 = s1.drop_last();
        assert(s1 =~= t1.push(a));
        assert(s1.to_multiset().count(a) > 0);
        assert(s2.contains(a));
        let i = choose|i: int| 0 <= i < s2.len() && s2[i] == a;
        let t2 = s2.remove(i);
        assert(t1.to_multiset() =~= t2.to_multiset()) by {
            assert(s2.to_multiset().remove(a) == t2.to_multiset());
            assert(t1.push(a).to_multiset() == t1.to_multiset().insert(a));
        }
        lemma_multiset_map(t1, t2, f);
        assert(s1.map_values(f) =~= t1.map_values(f).push(f(a)));
        let m2 = s2.map_values(f);
        assert(m2.remove(i) =~= t2.map_values(f));
        assert(m2[i] == f(a));
        assert(m2.remove(i).to_multiset() == m2.to_multiset().remove(f(a)));
        assert(m2.to_multiset().count(f(a)) > 0) by {
            assert(m2.contains(f(a)));
        }
        assert(m2.to_multiset() =~= m2.to_multiset().remove(f(a)).insert(f(a)));
    }
}

/// The values paired with key `k`, in order.
pub open spec fn group_values(pairs: Seq<(String, String)>, k: Seq<char>) -> Seq<Seq<char>>
    decreases pairs.len(),
{
    if pairs.len() == 0 {
        Seq::empty()
    } else if pairs.last().0@ == k {
        group_values(pairs.drop_last(), k).push(pairs.last().1@)
    } else {
        group_values(pairs.drop_last(), k)
    }
}

/// The views of a list of strings.
pub open spec fn str_views(v: Seq<String>) -> Seq<Seq<char>> {
    v.map_values(|s: String| s@)
}

pub fn copy_string_vec(v: &Vec<String>) -> (r: Vec<String>)
    ensures
        r@ == v@,
{
    let mut out: Vec<String> = Vec::new();
    let mut i: usize = 0;
    while i < v.len()
        invariant
            i <= v@.len(),
            out@ == v@.take(i as int),
        decreases v.len() - i,
    {
        out.push(v[i].clone());
        proof {
            assert(out@ =~= v@.take(i + 1));
        }
        i = i + 1;
    }
    proof {
        assert(v@.take(i as int) =~= v@);
    }
    out
}

/// Group values by key: one entry per distinct key, in key order, with
/// the key's values in input order.
pub fn group_by_key(pairs: &Vec<(String, String)>) -> (r: Vec<(String, Vec<String>)>)
    ensures
        sm_sorted(r@),
        forall|k: Seq<char>| #[trigger] sm_map(r@).contains_key(k) <==> group_values(pairs@, k).len() > 0,
        forall|k: Seq<char>| #[trigger] sm_map(r@).contains_key(k) ==> str_views(sm_map(r@)[k]@) == group_values(pairs@, k),
{
    let mut groups: Vec<(String, Vec<String>)> = Vec::new();
    let mut i: usize = 0;
    while i < pairs.len()
        invariant
            i <= pairs@.len(),
            sm_sorted(groups@),
            forall|k: Seq<char>| #[trigger] sm_map(groups@).contains_key(k) <==> group_values(pairs@.take(i as int), k).len() > 0,
            forall|k: Seq<char>| #[trigger] sm_map(groups@).contains_key(k) ==> str_views(sm_map(groups@)[k]@) == group_values(
                pairs@.take(i as int),
                k,
            ),
        decreases pairs.len() - i,
    {
        let key = &pairs[i].0;
        let (found, idx) = sm_find(&groups, key.as_str());
        let mut v: Vec<String> = if found {
            proof {
                lemma_sm_at(groups@, idx as int);
            }
            copy_string_vec(&groups[idx].1)
        } else {
            Vec::new()
        };
        let ghost v0 = v@;
        v.push(pairs[i].1.clone());
        sm_upsert(&mut groups, key.clone(), v);
        proof {
            assert(pairs@.take(i + 1).drop_last() =~= pairs@.take(i as int));
            assert(pairs@.take(i + 1).last() == pairs@[i as int]);
            assert forall|k: Seq<char>| #[trigger] sm_map(groups@).contains_key(k) <==> group_values(pairs@.take(i + 1), k).len() > 0 by {}
            assert forall|k: Seq<char>| #[trigger] sm_map(groups@).contains_key(k) implies str_views(sm_map(groups@)[k]@) == group_values(
                pairs@.take(i + 1),
                k,
            ) by {
                if k == key@ {
                    if !found {
                        assert(group_values(pairs@.take(i as int), k).len() == 0);
                        assert(str_views(v0) =~= group_values(pairs@.take(i as int), k));
                    }
                    assert(str_views(v0.push(pairs@[i as int].1)) =~= str_views(v0).push(pairs@[i as int].1@));
                }
            }
        }
        i = i + 1;
    }
    proof {
        assert(pairs@.take(i as int) =~= pairs@);
    }
    groups
}

} // verus!
