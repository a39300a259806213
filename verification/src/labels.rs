//! Code → label tables.
//!
//! A label table is a list of `(code, label)` pairs in insertion order; a
//! later pair for the same code overrides an earlier one, exactly as
//! repeated `insert`s into a map do.  [`label_map`] is the map such a
//! list denotes.
use vstd::prelude::*;

use crate::text::str_eq;

verus! {

/// The character views of a list of `(code, label)` pairs.
pub open spec fn pair_views(v: Seq<(String, String)>) -> Seq<(Seq<char>, Seq<char>)> {
    v.map_values(|p: (String, String)| (p.0@, p.1@))
}

/// The map a list of pairs denotes: each pair inserted in turn.
pub open spec fn label_map(s: Seq<(Seq<char>, Seq<char>)>) -> Map<Seq<char>, Seq<char>>
    decreases s.len(),
{
    if s.len() == 0 {
        Map::empty()
    } else {
        label_map(s.drop_last()).insert(s.last().0, s.last().1)
    }
}

/// The label of `code` in `m`, or `code` itself when it has none.
pub open spec fn label_or_code(m: Map<Seq<char>, Seq<char>>, code: Seq<char>) -> Seq<char> {
    if m.contains_key(code) {
        m[code]
    } else {
        code
    }
}

/// Inserting the pairs of `b` after those of `a` lets `b` win on every
/// code it carries and keeps `a` on the others.
pub proof fn lemma_label_map_concat(a: Seq<(Seq<char>, Seq<char>)>, b: Seq<(Seq<char>, Seq<char>)>)
    ensures
        label_map(a + b) == label_map(a).union_prefer_right(label_map(b)),
    decreases b.len(),
{
    if b.len() == 0 {
        assert(a + b =~= a);
        assert(label_map(a).union_prefer_right(label_map(b)) =~= label_map(a));
    } else {
        lemma_label_map_concat(a, b.drop_last());
        assert((a + b).drop_last() =~= a + b.drop_last());
        assert((a + b).last() == b.last());
        assert(label_map(a + b) =~= label_map(a).union_prefer_right(label_map(b)));
    }
}

/// The label of `code` in the table, or `code` when the table has none.
pub fn lookup_label(entries: &Vec<(String, String)>, code: &str) -> (r: String)
    ensures
        r@ == label_or_code(label_map(pair_views(entries@)), code@),
{
    let ghost full = pair_views(entries@);
    let mut i: usize = entries.len();
    proof {
        assert(full.take(i as int) =~= full);
    }
    while i > 0
        invariant
            i <= entries@.len(),
            full == pair_views(entries@),
            label_or_code(label_map(full), code@) == label_or_code(
                label_map(full.take(i as int)),
                code@,
            ),
        decreases i,
    {
        i = i - 1;
        proof {
            assert(full.take(i + 1).drop_last() =~= full.take(i as int));
            assert(full.take(i + 1).last() == full[i as int]);
        }
        if str_eq(entries[i].0.as_str(), code) {
            return entries[i].1.clone();
        }
    }
    proof {
        assert(full.take(0) =~= Seq::<(Seq<char>, Seq<char>)>::empty());
    }
    code.to_string()
}

} // verus!
