//! The journal-entry network exports: the edge counts they report and the
//! CSV field quoting.
use vstd::prelude::*;
use vstd::string::*;

use crate::manifest::shard_plan::string_from_chars;

verus! {

/// What an export of the journal-entry network wrote: the edges of each
/// entity, of the elimination entries and of the consolidated file, and
/// where the consolidated files went.
#[derive(Debug, Clone)]
pub struct JeNetworkSummary {
    pub per_entity_edge_count: Vec<(String, usize)>,
    pub elim_edge_count: usize,
    pub consolidated_edge_count: usize,
    pub consolidated_csv_path: Option<String>,
    pub consolidated_parquet_path: Option<String>,
}

impl Default for JeNetworkSummary {
    fn default() -> (r: Self)
        ensures
            r.per_entity_edge_count@.len() == 0,
            r.elim_edge_count == 0,
            r.consolidated_edge_count == 0,
            r.consolidated_csv_path is None,
            r.consolidated_parquet_path is None,
    {
        JeNetworkSummary {
            per_entity_edge_count: Vec::new(),
            elim_edge_count: 0,
            consolidated_edge_count: 0,
            consolidated_csv_path: None,
            consolidated_parquet_path: None,
        }
    }
}

/// The edges of the first `n` entities.
pub open spec fn entity_edges(counts: Seq<(String, usize)>, n: int) -> int
    decreases n,
{
    if n <= 0 {
        0
    } else {
        entity_edges(counts, n - 1) + counts[n - 1].1
    }
}

/// The consolidated file holds every entity's edges and then the
/// elimination edges.
pub open spec fn consolidated_edges(counts: Seq<(String, usize)>, elim: usize) -> int {
    entity_edges(counts, counts.len() as int) + elim
}

/// The summary of an export with these edge counts, before any file is
/// written; `None` when the consolidated count does not fit in a `usize`.
pub fn summarise_edge_counts(per_entity_edge_count: Vec<(String, usize)>, elim_edge_count: usize) -> (r: Option<
    JeNetworkSummary,
>)
    ensures
        r is Some <==> consolidated_edges(per_entity_edge_count@, elim_edge_count) <= usize::MAX,
        r matches Some(s) ==> {
            &&& s.per_entity_edge_count@ == per_entity_edge_count@
            &&& s.elim_edge_count == elim_edge_count
            &&& s.consolidated_edge_count == consolidated_edges(per_entity_edge_count@, elim_edge_count)
            &&& s.consolidated_csv_path is None
            &&& s.consolidated_parquet_path is None
        },
{
    let ghost counts = per_entity_edge_count@;
    let mut total: usize = 0;
    let mut i: usize = 0;
    while i < per_entity_edge_count.len()
        invariant
            counts == per_entity_edge_count@,
            i <= counts.len(),
            total == entity_edges(counts, i as int),
        decreases per_entity_edge_count.len() - i,
    {
        let n = per_entity_edge_count[i].1;
        if n > usize::MAX - total {
            proof {
                lemma_entity_edges_grow(counts, i as int + 1, counts.len() as int);
            }
            return None;
        }
        total = total + n;
        i = i + 1;
    }
    if elim_edge_count > usize::MAX - total {
        return None;
    }
    Some(JeNetworkSummary {
        per_entity_edge_count,
        elim_edge_count,
        consolidated_edge_count: total + elim_edge_count,
        consolidated_csv_path: None,
        consolidated_parquet_path: None,
    })
}

/// Counting more entities never gives fewer edges.
proof fn lemma_entity_edges_grow(counts: Seq<(String, usize)>, m: int, n: int)
    requires
        0 <= m <= n <= counts.len(),
    ensures
        entity_edges(counts, m) <= entity_edges(counts, n),
    decreases n - m,
{
    if m < n {
        lemma_entity_edges_grow(counts, m, n - 1);
    }
}

/// A field that must be quoted: it holds a comma, a double quote or a
/// newline.
pub open spec fn needs_quoting(s: Seq<char>) -> bool {
    s.contains(',') || s.contains('"') || s.contains('\n')
}

/// `s` with every double quote doubled.
pub open spec fn double_quotes(s: Seq<char>) -> Seq<char>
    decreases s.len(),
{
    if s.len() == 0 {
        Seq::empty()
    } else {
        double_quotes(s.drop_last()) + if s.last() == '"' {
            seq!['"', '"']
        } else {
            seq![s.last()]
        }
    }
}

/// A CSV field: quoted, with its quotes doubled, when it needs quoting;
/// as it is otherwise.
pub open spec fn csv_field(s: Seq<char>) -> Seq<char> {
    if needs_quoting(s) {
        seq!['"'] + double_quotes(s) + seq!['"']
    } else {
        s
    }
}

/// Quote `s` as a CSV field (RFC 4180).
pub fn csv_escape(s: &str) -> (r: String)
    ensures
        r@ == csv_field(s@),
{
    let n = s.unicode_len();
    let mut doubled: Vec<char> = Vec::new();
    let mut quote = false;
    let mut i: usize = 0;
    while i < n
        invariant
            n == s@.len(),
            i <= n,
            doubled@ == double_quotes(s@.take(i as int)),
            quote == needs_quoting(s@.take(i as int)),
        decreases n - i,
    {
        let c = s.get_char(i);
        proof {
            assert(s@.take(i + 1).drop_last() =~= s@.take(i as int));
            assert(s@.take(i + 1).last() == c);
            assert(s@.take(i + 1) =~= s@.take(i as int).push(c));
            if needs_quoting(s@.take(i as int)) {
                let w = if s@.take(i as int).contains(',') {
                    ','
                } else if s@.take(i as int).contains('"') {
                    '"'
                } else {
                    '\n'
                };
                let k = choose|k: int| 0 <= k < s@.take(i as int).len() && s@.take(i as int)[k] == w;
                assert(s@.take(i + 1)[k] == w);
            }
            if needs_quoting(s@.take(i + 1)) && !needs_quoting(s@.take(i as int)) {
                assert(c == ',' || c == '"' || c == '\n');
            }
        }
        if c == '"' {
            doubled.push('"');
            doubled.push('"');
        } else {
            doubled.push(c);
        }
        if c == ',' || c == '"' || c == '\n' {
            quote = true;
        }
        proof {
            assert(doubled@ =~= double_quotes(s@.take(i + 1)));
        }
        i = i + 1;
    }
    proof {
        assert(s@.take(i as int) =~= s@);
    }
    if quote {
        let mut out: Vec<char> = Vec::new();
        out.push('"');
        let mut j: usize = 0;
        while j < doubled.len()
            invariant
                j <= doubled@.len(),
                out@ == seq!['"'] + doubled@.take(j as int),
            decreases doubled.len() - j,
        {
            out.push(doubled[j]);
            proof {
                assert(out@ =~= seq!['"'] + doubled@.take(j + 1));
            }
            j = j + 1;
        }
        out.push('"');
        proof {
            assert(doubled@.take(j as int) =~= doubled@);
            assert(out@ =~= seq!['"'] + double_quotes(s@) + seq!['"']);
        }
        string_from_chars(&out)
    } else {
        s.to_string()
    }
}

} // verus!
