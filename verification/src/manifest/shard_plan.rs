//! Shard plan: entities grouped by scoping profile, sorted by code, and
//! batched into shards of at most ten billion estimated rows.
use vstd::prelude::*;
use vstd::string::*;

use crate::manifest::expansion::ExpandedEntity;
use crate::sorted_map::{keys_ordered, lemma_sm_at, sm_find, sm_map, sm_sorted, sm_upsert, sort_by_key};
use crate::text::str_eq;

verus! {

/// Row cap of one shard.
pub const MAX_ROWS_PER_SHARD: u64 = 10_000_000_000;

/// Estimated archive bytes per row.
pub const BYTES_PER_ROW_ESTIMATE: u64 = 800;

/// Row budget of an entity whose profile sets none.
pub const FALLBACK_ROW_BUDGET: u64 = 1_000_000;

pub const BYTES_PER_MB: u64 = 1_000_000;

/// One shard: the entities generated together.
#[derive(Debug, Clone)]
pub struct ShardAssignment {
    pub shard_id: String,
    pub scoping_profile: String,
    pub entity_codes: Vec<String>,
    pub estimated_rows: u64,
    pub estimated_archive_size_mb: u64,
}

/// The shard plan.
#[derive(Debug, Clone)]
pub struct ShardPlan {
    pub shards: Vec<ShardAssignment>,
}

/// ASCII upper-casing.
pub open spec fn ascii_upper(c: char) -> char {
    if 'a' <= c <= 'z' {
        ((c as u32) - 32) as char
    } else {
        c
    }
}

/// The three-letter initial of a profile.
pub open spec fn profile_initial_spec(p: Seq<char>) -> Seq<char> {
    if p == "significant"@ {
        "SIG"@
    } else if p == "material"@ {
        "MAT"@
    } else if p == "consolidation_only"@ {
        "CON"@
    } else {
        let t = if p.len() <= 3 {
            p
        } else {
            p.take(3)
        };
        t.map_values(|c: char| ascii_upper(c))
    }
}

/// `String` from characters (`Iterator::collect`).
#[verifier::external_body]
pub(crate) fn string_from_chars(v: &Vec<char>) -> (r: String)
    ensures
        r@ == v@,
{
    v.iter().collect()
}

/// The initial of a scoping profile: `SIG`, `MAT`, `CON` for the standard
/// profiles; otherwise its first three characters, upper-cased.
pub fn profile_initial(profile: &str) -> (r: String)
    ensures
        r@ == profile_initial_spec(profile@),
{
    if str_eq(profile, "significant") {
        return "SIG".to_string();
    }
    if str_eq(profile, "material") {
        return "MAT".to_string();
    }
    if str_eq(profile, "consolidation_only") {
        return "CON".to_string();
    }
    let n = profile.unicode_len();
    let mut out: Vec<char> = Vec::new();
    let mut k: usize = 0;
    while k < n && k < 3
        invariant
            n == profile@.len(),
            k <= n,
            k <= 3,
            out@ == profile@.take(k as int).map_values(|c: char| ascii_upper(c)),
        decreases 3 - k,
    {
        let c = profile.get_char(k);
        let u = if 'a' <= c && c <= 'z' {
            ((c as u8) - 32) as char
        } else {
            c
        };
        out.push(u);
        proof {
            assert(out@ =~= profile@.take(k + 1).map_values(|c: char| ascii_upper(c)));
        }
        k = k + 1;
    }
    let ghost t = if profile@.len() <= 3 {
        profile@
    } else {
        profile@.take(3)
    };
    proof {
        if profile@.len() <= 3 {
            assert(profile@.take(k as int) =~= profile@);
        }
        assert(out@ =~= t.map_values(|c: char| ascii_upper(c)));
    }
    string_from_chars(&out)
}

/// Decimal digits of `n`, most significant first.
pub open spec fn digits_spec(n: nat) -> Seq<char>
    decreases n,
{
    if n < 10 {
        seq![((n + 48) as u8) as char]
    } else {
        digits_spec(n / 10).push((((n % 10) + 48) as u8) as char)
    }
}

/// `s` left-padded with `0` to `w` characters.
pub open spec fn zero_pad(s: Seq<char>, w: nat) -> Seq<char> {
    if s.len() >= w {
        s
    } else {
        Seq::new((w - s.len()) as nat, |i: int| '0') + s
    }
}

fn push_digits(n: u32, out: &mut Vec<char>)
    ensures
        final(out)@ == old(out)@ + digits_spec(n as nat),
    decreases n,
{
    if n >= 10 {
        push_digits(n / 10, out);
    }
    let d = ((n % 10) as u8 + 48) as char;
    let ghost before = out@;
    out.push(d);
    proof {
        if n >= 10 {
            assert(out@ =~= old(out)@ + digits_spec(n as nat));
        } else {
            assert(out@ =~= old(out)@ + digits_spec(n as nat));
        }
    }
}

fn push_digits_u64(n: u64, out: &mut Vec<char>)
    ensures
        final(out)@ == old(out)@ + digits_spec(n as nat),
    decreases n,
{
    if n >= 10 {
        push_digits_u64(n / 10, out);
    }
    let d = ((n % 10) as u8 + 48) as char;
    out.push(d);
    proof {
        assert(out@ =~= old(out)@ + digits_spec(n as nat));
    }
}

/// `n` in decimal (`n.to_string()`).
pub fn usize_text(n: usize) -> (r: String)
    ensures
        r@ == digits_spec(n as nat),
{
    let mut digits: Vec<char> = Vec::new();
    push_digits_u64(n as u64, &mut digits);
    proof {
        assert(digits@ =~= digits_spec(n as nat));
    }
    string_from_chars(&digits)
}

/// `n` in decimal, left-padded with zeros to four digits (`{:04}`).
pub fn pad4(n: u32) -> (r: String)
    ensures
        r@ == zero_pad(digits_spec(n as nat), 4),
{
    pad_digits(n, 4)
}

/// `n` in decimal, left-padded with zeros to `w` digits (`{:0w}`).
pub fn pad_digits(n: u32, w: usize) -> (r: String)
    ensures
        r@ == zero_pad(digits_spec(n as nat), w as nat),
{
    let mut digits: Vec<char> = Vec::new();
    push_digits(n, &mut digits);
    proof {
        assert(digits@ =~= digits_spec(n as nat));
    }
    let mut out: Vec<char> = Vec::new();
    let len = digits.len();
    let mut k: usize = 0;
    let pad: usize = if len < w { w - len } else { 0 };
    while k < pad
        invariant
            k <= pad,
            out@ == Seq::new(k as nat, |i: int| '0'),
        decreases pad - k,
    {
        out.push('0');
        proof {
            assert(out@ =~= Seq::new((k + 1) as nat, |i: int| '0'));
        }
        k = k + 1;
    }
    let mut j: usize = 0;
    while j < len
        invariant
            len == digits@.len(),
            j <= len,
            out@ == Seq::new(pad as nat, |i: int| '0') + digits@.take(j as int),
        decreases len - j,
    {
        out.push(digits[j]);
        proof {
            assert(out@ =~= Seq::new(pad as nat, |i: int| '0') + digits@.take(j + 1));
        }
        j = j + 1;
    }
    proof {
        assert(digits@.take(j as int) =~= digits@);
        if len >= w {
            assert(out@ =~= digits@);
        }
    }
    string_from_chars(&out)
}

/// `rows * 800` bytes in megabytes, the product saturating at `u64::MAX`.
pub open spec fn archive_mb_spec(rows: u64) -> int {
    let bytes = if rows * 800 > u64::MAX {
        u64::MAX as int
    } else {
        rows * 800
    };
    bytes / 1_000_000
}

/// One shard: id `S_{initial}_{index:04}`, the profile, the entities, the
/// row estimate and the archive size estimate.
pub fn make_shard(initial: &str, index: u32, profile: &str, entity_codes: Vec<String>, estimated_rows: u64) -> (r: ShardAssignment)
    ensures
        r.shard_id@ == "S_"@ + initial@ + "_"@ + zero_pad(digits_spec(index as nat), 4),
        r.scoping_profile@ == profile@,
        r.entity_codes@ == entity_codes@,
        r.estimated_rows == estimated_rows,
        r.estimated_archive_size_mb == archive_mb_spec(estimated_rows),
{
    let shard_id = "S_".to_string().concat(initial).concat("_").concat(pad4(index).as_str());
    let bytes = if estimated_rows > u64::MAX / BYTES_PER_ROW_ESTIMATE {
        u64::MAX
    } else {
        estimated_rows * BYTES_PER_ROW_ESTIMATE
    };
    ShardAssignment {
        shard_id,
        scoping_profile: profile.to_string(),
        entity_codes,
        estimated_rows,
        estimated_archive_size_mb: bytes / BYTES_PER_MB,
    }
}

/// Insert `code → id` for every code, in order.
pub open spec fn insert_codes(m: Map<Seq<char>, Seq<char>>, codes: Seq<String>, id: Seq<char>) -> Map<Seq<char>, Seq<char>>
    decreases codes.len(),
{
    if codes.len() == 0 {
        m
    } else {
        insert_codes(m, codes.drop_last(), id).insert(codes.last()@, id)
    }
}

/// Entity code → shard id over all shards, later shards winning.
pub open spec fn shard_code_map(shards: Seq<ShardAssignment>) -> Map<Seq<char>, Seq<char>>
    decreases shards.len(),
{
    if shards.len() == 0 {
        Map::empty()
    } else {
        insert_codes(shard_code_map(shards.drop_last()), shards.last().entity_codes@, shards.last().shard_id@)
    }
}

impl ShardPlan {
    /// Entity code → shard id, sorted by code.
    pub fn shard_by_code(&self) -> (r: Vec<(String, String)>)
        ensures
            sm_sorted(r@),
            sm_map(r@).map_values(|v: String| v@) == shard_code_map(self.shards@),
    {
        let mut m: Vec<(String, String)> = Vec::new();
        let mut i: usize = 0;
        proof {
            assert(sm_map(m@).map_values(|v: String| v@) =~= Map::empty());
        }
        while i < self.shards.len()
            invariant
                i <= self.shards@.len(),
                sm_sorted(m@),
                sm_map(m@).map_values(|v: String| v@) == shard_code_map(self.shards@.take(i as int)),
            decreases self.shards.len() - i,
        {
            let s = &self.shards[i];
            let ghost base = shard_code_map(self.shards@.take(i as int));
            let mut j: usize = 0;
            while j < s.entity_codes.len()
                invariant
                    j <= s.entity_codes@.len(),
                    sm_sorted(m@),
                    sm_map(m@).map_values(|v: String| v@) == insert_codes(base, s.entity_codes@.take(j as int), s.shard_id@),
                decreases s.entity_codes.len() - j,
            {
                let ghost prev = sm_map(m@);
                sm_upsert(&mut m, s.entity_codes[j].clone(), s.shard_id.clone());
                proof {
                    assert(s.entity_codes@.take(j + 1).drop_last() =~= s.entity_codes@.take(j as int));
                    assert(sm_map(m@).map_values(|v: String| v@) =~= prev.map_values(|v: String| v@).insert(
                        s.entity_codes@[j as int]@,
                        s.shard_id@,
                    ));
                }
                j = j + 1;
            }
            proof {
                assert(s.entity_codes@.take(j as int) =~= s.entity_codes@);
                assert(self.shards@.take(i + 1).drop_last() =~= self.shards@.take(i as int));
            }
            i = i + 1;
        }
        proof {
            assert(self.shards@.take(i as int) =~= self.shards@);
        }
        m
    }
}

/// The row budget of a profile: its configured budget, or the fallback.
pub open spec fn row_budget_spec(budgets: Seq<(String, u64)>, profile: Seq<char>) -> u64 {
    if sm_map(budgets).contains_key(profile) {
        sm_map(budgets)[profile]
    } else {
        FALLBACK_ROW_BUDGET
    }
}

/// The row budget per entity of `profile` (profile → budget, as read
/// from the scoping profiles' `row_budget`).
pub fn read_row_budget(budgets: &Vec<(String, u64)>, profile: &str) -> (r: u64)
    requires
        sm_sorted(budgets@),
    ensures
        r == row_budget_spec(budgets@, profile@),
{
    let (found, i) = sm_find(budgets, profile);
    if found {
        proof {
            lemma_sm_at(budgets@, i as int);
        }
        budgets[i].1
    } else {
        FALLBACK_ROW_BUDGET
    }
}

/// Greedy batching state after `items`: flushed batches, the codes and
/// rows of the open batch.  An item closes the open batch first when the
/// batch is not empty and its rows would exceed the cap.
pub open spec fn batch_fold(items: Seq<(String, u64)>) -> (Seq<(Seq<Seq<char>>, u64)>, Seq<Seq<char>>, u64)
    decreases items.len(),
{
    if items.len() == 0 {
        (Seq::empty(), Seq::empty(), 0)
    } else {
        let st = batch_fold(items.drop_last());
        let x = items.last();
        if st.1.len() > 0 && (if st.2 + x.1 > u64::MAX { u64::MAX as int } else { st.2 + x.1 }) > MAX_ROWS_PER_SHARD {
            (st.0.push((st.1, st.2)), seq![x.0@], x.1)
        } else {
            (st.0, st.1.push(x.0@), (if st.2 + x.1 > u64::MAX { u64::MAX as int } else { st.2 + x.1 }) as u64)
        }
    }
}

/// The batches of `items`: the flushed ones and the open one.
pub open spec fn batches(items: Seq<(String, u64)>) -> Seq<(Seq<Seq<char>>, u64)> {
    let st = batch_fold(items);
    if st.1.len() > 0 {
        st.0.push((st.1, st.2))
    } else {
        st.0
    }
}

/// A batch respects the cap, or holds one entity alone.
pub open spec fn within_cap(codes_len: nat, rows: u64) -> bool {
    codes_len >= 1 && (rows <= MAX_ROWS_PER_SHARD || codes_len == 1)
}

proof fn lemma_batch_fold_cap(items: Seq<(String, u64)>)
    ensures
        forall|k: int| 0 <= k < batch_fold(items).0.len() ==> within_cap(
            (#[trigger] batch_fold(items).0[k]).0.len(),
            batch_fold(items).0[k].1,
        ),
        batch_fold(items).1.len() > 0 ==> within_cap(batch_fold(items).1.len(), batch_fold(items).2),
        items.len() > 0 ==> batch_fold(items).1.len() > 0,
    decreases items.len(),
{
    if items.len() > 0 {
        lemma_batch_fold_cap(items.drop_last());
    }
}

/// The shards of one profile, numbered from 1, from its entities sorted
/// by code.
fn batch_profile(initial: &str, profile: &str, items: &Vec<(String, u64)>) -> (r: Vec<ShardAssignment>)
    requires
        items@.len() < u32::MAX,
    ensures
        r@.len() == batches(items@).len(),
        forall|k: int| 0 <= k < r@.len() ==> {
            &&& (#[trigger] r@[k]).scoping_profile@ == profile@
            &&& r@[k].entity_codes@.map_values(|c: String| c@) == batches(items@)[k].0
            &&& r@[k].estimated_rows == batches(items@)[k].1
            &&& within_cap(r@[k].entity_codes@.len(), r@[k].estimated_rows)
            &&& r@[k].shard_id@ == "S_"@ + initial@ + "_"@ + zero_pad(digits_spec((k + 1) as nat), 4)
            &&& r@[k].estimated_archive_size_mb == archive_mb_spec(r@[k].estimated_rows)
        },
{
    let mut shards: Vec<ShardAssignment> = Vec::new();
    let mut current: Vec<String> = Vec::new();
    let mut rows: u64 = 0;
    let mut index: u32 = 1;
    let mut j: usize = 0;
    proof {
        lemma_batch_fold_cap(items@);
    }
    while j < items.len()
        invariant
            items@.len() < u32::MAX,
            j <= items@.len(),
            shards@.len() == batch_fold(items@.take(j as int)).0.len(),
            index as int == shards@.len() + 1,
            index <= j + 1,
            current@.map_values(|c: String| c@) == batch_fold(items@.take(j as int)).1,
            rows == batch_fold(items@.take(j as int)).2,
            forall|k: int| 0 <= k < shards@.len() ==> {
                &&& (#[trigger] shards@[k]).scoping_profile@ == profile@
                &&& shards@[k].entity_codes@.map_values(|c: String| c@) == batch_fold(items@.take(j as int)).0[k].0
                &&& shards@[k].estimated_rows == batch_fold(items@.take(j as int)).0[k].1
                &&& shards@[k].shard_id@ == "S_"@ + initial@ + "_"@ + zero_pad(digits_spec((k + 1) as nat), 4)
                &&& shards@[k].estimated_archive_size_mb == archive_mb_spec(shards@[k].estimated_rows)
            },
        decreases items.len() - j,
    {
        proof {
            assert(items@.take(j + 1).drop_last() =~= items@.take(j as int));
            assert(items@.take(j + 1).last() == items@[j as int]);
        }
        let entity_rows = items[j].1;
        if current.len() > 0 && rows.saturating_add(entity_rows) > MAX_ROWS_PER_SHARD {
            let mut codes: Vec<String> = Vec::new();
            std::mem::swap(&mut codes, &mut current);
            let ghost before = shards@;
            shards.push(make_shard(initial, index, profile, codes, rows));
            proof {
                assert forall|k: int| 0 <= k < shards@.len() implies {
                    &&& (#[trigger] shards@[k]).scoping_profile@ == profile@
                    &&& shards@[k].entity_codes@.map_values(|c: String| c@) == batch_fold(items@.take(j + 1)).0[k].0
                    &&& shards@[k].estimated_rows == batch_fold(items@.take(j + 1)).0[k].1
                    &&& shards@[k].shard_id@ == "S_"@ + initial@ + "_"@ + zero_pad(digits_spec((k + 1) as nat), 4)
                    &&& shards@[k].estimated_archive_size_mb == archive_mb_spec(shards@[k].estimated_rows)
                } by {
                    if k < before.len() {
                        assert(shards@[k] == before[k]);
                    }
                }
            }
            index = index + 1;
            rows = 0;
        }
        let ghost cur_before = current@;
        current.push(items[j].0.clone());
        proof {
            assert(current@.map_values(|c: String| c@) =~= cur_before.map_values(|c: String| c@).push(items@[j as int].0@));
        }
        rows = rows.saturating_add(entity_rows);
        j = j + 1;
    }
    proof {
        assert(items@.take(j as int) =~= items@);
    }
    if current.len() > 0 {
        let ghost before = shards@;
        shards.push(make_shard(initial, index, profile, current, rows));
        proof {
            assert forall|k: int| 0 <= k < shards@.len() implies shards@[k].entity_codes@.map_values(|c: String| c@)
                == batches(items@)[k].0 && shards@[k].shard_id@ == "S_"@ + initial@ + "_"@ + zero_pad(digits_spec((k + 1) as nat), 4)
                && shards@[k].estimated_archive_size_mb == archive_mb_spec(shards@[k].estimated_rows) by {
                if k < before.len() {
                    assert(shards@[k] == before[k]);
                }
            }
        }
    }
    proof {
        lemma_batch_fold_cap(items@);
        assert forall|k: int| 0 <= k < shards@.len() implies within_cap(
            (#[trigger] shards@[k]).entity_codes@.len(),
            shards@[k].estimated_rows,
        ) by {
            assert(shards@[k].entity_codes@.len() == shards@[k].entity_codes@.map_values(|c: String| c@).len());
        }
    }
    shards
}

/// The estimated rows of an entity: its own row budget, else its
/// profile's.
pub open spec fn entity_rows_spec(e: ExpandedEntity, budgets: Seq<(String, u64)>) -> u64 {
    match e.rows {
        Some(r) => r,
        None => row_budget_spec(budgets, e.scoping_profile@),
    }
}

/// The entities of profile `p`, in input order, as (code, rows).
pub open spec fn profile_members(ents: Seq<ExpandedEntity>, budgets: Seq<(String, u64)>, p: Seq<char>) -> Seq<(Seq<char>, u64)>
    decreases ents.len(),
{
    if ents.len() == 0 {
        Seq::empty()
    } else {
        let rest = profile_members(ents.drop_last(), budgets, p);
        if ents.last().scoping_profile@ == p {
            rest.push((ents.last().code@, entity_rows_spec(ents.last(), budgets)))
        } else {
            rest
        }
    }
}

/// (code, rows) pairs by value.
pub open spec fn item_views(items: Seq<(String, u64)>) -> Seq<(Seq<char>, u64)> {
    items.map_values(|x: (String, u64)| (x.0@, x.1))
}

/// A shard by value: id, profile, codes, rows, archive size.
pub open spec fn shard_view(s: ShardAssignment) -> (Seq<char>, Seq<char>, Seq<Seq<char>>, u64, int) {
    (
        s.shard_id@,
        s.scoping_profile@,
        s.entity_codes@.map_values(|c: String| c@),
        s.estimated_rows,
        s.estimated_archive_size_mb as int,
    )
}

pub open spec fn shard_views(shards: Seq<ShardAssignment>) -> Seq<(Seq<char>, Seq<char>, Seq<Seq<char>>, u64, int)> {
    shards.map_values(|s: ShardAssignment| shard_view(s))
}

/// The id of the `index`-th shard of profile `p`.
pub open spec fn shard_id_spec(p: Seq<char>, index: nat) -> Seq<char> {
    "S_"@ + profile_initial_spec(p) + "_"@ + zero_pad(digits_spec(index), 4)
}

/// The shards of profile `p` from its entities `items`, sorted by code:
/// one per greedy batch, numbered from 1.
pub open spec fn profile_shards(p: Seq<char>, items: Seq<(String, u64)>) -> Seq<(Seq<char>, Seq<char>, Seq<Seq<char>>, u64, int)> {
    Seq::new(
        batches(items).len(),
        |k: int|
            (
                shard_id_spec(p, (k + 1) as nat),
                p,
                batches(items)[k].0,
                batches(items)[k].1,
                archive_mb_spec(batches(items)[k].1),
            ),
    )
}

/// The shards of each group, group after group.
pub open spec fn plan_shards(groups: Seq<(Seq<char>, Seq<(String, u64)>)>) -> Seq<(Seq<char>, Seq<char>, Seq<Seq<char>>, u64, int)>
    decreases groups.len(),
{
    if groups.len() == 0 {
        Seq::empty()
    } else {
        plan_shards(groups.drop_last()) + profile_shards(groups.last().0, groups.last().1)
    }
}

/// `groups` are the entities' profiles in ascending order, each with its
/// entities sorted by code.
pub open spec fn profile_groups(ents: Seq<ExpandedEntity>, budgets: Seq<(String, u64)>, groups: Seq<(Seq<char>, Seq<(String, u64)>)>) -> bool {
    &&& forall|a: int, b: int| 0 <= a < b < groups.len() ==> crate::text::seq_lt(#[trigger] groups[a].0, #[trigger] groups[b].0)
    &&& forall|e: int| 0 <= e < ents.len() ==> exists|g: int| 0 <= g < groups.len() && #[trigger] groups[g].0 == (#[trigger] ents[e]).scoping_profile@
    &&& forall|g: int| 0 <= g < groups.len() ==> {
        &&& keys_ordered(#[trigger] groups[g].1)
        &&& item_views(groups[g].1).to_multiset() == profile_members(ents, budgets, groups[g].0).to_multiset()
        &&& profile_members(ents, budgets, groups[g].0).len() > 0
    }
}

proof fn lemma_members_nonempty(ents: Seq<ExpandedEntity>, budgets: Seq<(String, u64)>, p: Seq<char>, e: int)
    requires
        0 <= e < ents.len(),
        ents[e].scoping_profile@ == p,
    ensures
        profile_members(ents, budgets, p).len() > 0,
    decreases ents.len(),
{
    if e < ents.len() - 1 {
        lemma_members_nonempty(ents.drop_last(), budgets, p, e);
    }
}

/// The entities of `profile` as (code, rows), in input order.
fn profile_items(entities: &[ExpandedEntity], row_budgets: &Vec<(String, u64)>, profile: &str) -> (r: Vec<(String, u64)>)
    requires
        sm_sorted(row_budgets@),
    ensures
        item_views(r@) == profile_members(entities@, row_budgets@, profile@),
        r@.len() <= entities@.len(),
{
    let budget = read_row_budget(row_budgets, profile);
    let mut items: Vec<(String, u64)> = Vec::new();
    let mut e: usize = 0;
    while e < entities.len()
        invariant
            e <= entities@.len(),
            budget == row_budget_spec(row_budgets@, profile@),
            items@.len() <= e,
            item_views(items@) == profile_members(entities@.take(e as int), row_budgets@, profile@),
        decreases entities.len() - e,
    {
        proof {
            assert(entities@.take(e + 1).drop_last() =~= entities@.take(e as int));
        }
        if str_eq(entities[e].scoping_profile.as_str(), profile) {
            let rows = match entities[e].rows {
                Some(r) => r,
                None => budget,
            };
            let ghost before = items@;
            items.push((entities[e].code.clone(), rows));
            proof {
                assert(item_views(items@) =~= item_views(before).push((entities@[e as int].code@, rows)));
            }
        }
        e = e + 1;
    }
    proof {
        assert(entities@.take(e as int) =~= entities@);
    }
    items
}

/// The distinct scoping profiles of the entities, ascending.
fn distinct_profiles(entities: &[ExpandedEntity]) -> (r: Vec<(String, ())>)
    ensures
        sm_sorted(r@),
        forall|q: Seq<char>| sm_map(r@).contains_key(q) ==> exists|e: int|
            0 <= e < entities@.len() && #[trigger] entities@[e].scoping_profile@ == q,
        forall|e: int| 0 <= e < entities@.len() ==> sm_map(r@).contains_key(#[trigger] entities@[e].scoping_profile@),
{
    let mut profiles: Vec<(String, ())> = Vec::new();
    let mut i: usize = 0;
    while i < entities.len()
        invariant
            i <= entities@.len(),
            sm_sorted(profiles@),
            forall|q: Seq<char>| sm_map(profiles@).contains_key(q) ==> exists|e: int|
                0 <= e < entities@.len() && #[trigger] entities@[e].scoping_profile@ == q,
            forall|e: int| 0 <= e < i ==> sm_map(profiles@).contains_key(#[trigger] entities@[e].scoping_profile@),
        decreases entities.len() - i,
    {
        sm_upsert(&mut profiles, entities[i].scoping_profile.clone(), ());
        proof {
            assert(entities@[i as int].scoping_profile@ == entities@[i as int].scoping_profile@);
        }
        i = i + 1;
    }
    profiles
}

/// Build the shard plan: the entities of each scoping profile (profiles
/// in ascending order), sorted by code, batched greedily into shards of
/// at most [`MAX_ROWS_PER_SHARD`] estimated rows (an entity over the cap
/// gets a shard of its own), numbered from 1 within the profile.  An
/// entity's rows are its own row budget, else its profile's
/// (`row_budgets`: profile → budget), else the fallback.  Entities with
/// equal codes may come in either order.
pub fn build_shard_plan(entities: &[ExpandedEntity], row_budgets: &Vec<(String, u64)>) -> (r: Result<ShardPlan, crate::errors::GroupError>)
    requires
        sm_sorted(row_budgets@),
        entities@.len() < u32::MAX,
    ensures
        r is Ok,
        r matches Ok(plan) ==> exists|groups: Seq<(Seq<char>, Seq<(String, u64)>)>|
            profile_groups(entities@, row_budgets@, groups) && #[trigger] plan_shards(groups) == shard_views(plan.shards@),
        r matches Ok(plan) ==> forall|k: int| 0 <= k < plan.shards@.len() ==> within_cap(
            (#[trigger] plan.shards@[k]).entity_codes@.len(),
            plan.shards@[k].estimated_rows,
        ),
{
    let profiles = distinct_profiles(entities);
    let mut shards: Vec<ShardAssignment> = Vec::new();
    let ghost mut groups: Seq<(Seq<char>, Seq<(String, u64)>)> = Seq::empty();
    let mut pi: usize = 0;
    while pi < profiles.len()
        invariant
            pi <= profiles@.len(),
            sm_sorted(profiles@),
            entities@.len() < u32::MAX,
            sm_sorted(row_budgets@),
            forall|q: Seq<char>| sm_map(profiles@).contains_key(q) ==> exists|e: int|
                0 <= e < entities@.len() && #[trigger] entities@[e].scoping_profile@ == q,
            forall|e: int| 0 <= e < entities@.len() ==> sm_map(profiles@).contains_key(#[trigger] entities@[e].scoping_profile@),
            groups.len() == pi,
            forall|g: int| 0 <= g < pi ==> (#[trigger] groups[g]).0 == profiles@[g].0@,
            forall|g: int| 0 <= g < pi ==> {
                &&& keys_ordered(#[trigger] groups[g].1)
                &&& item_views(groups[g].1).to_multiset() == profile_members(entities@, row_budgets@, groups[g].0).to_multiset()
                &&& profile_members(entities@, row_budgets@, groups[g].0).len() > 0
            },
            shard_views(shards@) == plan_shards(groups),
            forall|k: int| 0 <= k < shards@.len() ==> within_cap(
                (#[trigger] shards@[k]).entity_codes@.len(),
                shards@[k].estimated_rows,
            ),
        decreases profiles.len() - pi,
    {
        let profile = &profiles[pi].0;
        proof {
            crate::sorted_map::lemma_sm_at(profiles@, pi as int);
            let e = choose|e: int| 0 <= e < entities@.len() && #[trigger] entities@[e].scoping_profile@ == profile@;
            lemma_members_nonempty(entities@, row_budgets@, profile@, e);
        }
        let items = profile_items(entities, row_budgets, profile.as_str());
        let sorted = sort_by_key(items);
        let ghost f = |x: (String, u64)| (x.0@, x.1);
        proof {
            crate::sorted_map::lemma_multiset_map(sorted@, items@, f);
            assert(item_views(sorted@) =~= sorted@.map_values(f));
            assert(item_views(items@) =~= items@.map_values(f));
        }
        let initial = profile_initial(profile.as_str());
        let batch = batch_profile(initial.as_str(), profile.as_str(), &sorted);
        let ghost base = shards@;
        let mut k: usize = 0;
        while k < batch.len()
            invariant
                k <= batch@.len(),
                initial@ == profile_initial_spec(profile@),
                batch@.len() == batches(sorted@).len(),
                forall|m: int| 0 <= m < batch@.len() ==> {
                    &&& (#[trigger] batch@[m]).scoping_profile@ == profile@
                    &&& batch@[m].entity_codes@.map_values(|c: String| c@) == batches(sorted@)[m].0
                    &&& batch@[m].estimated_rows == batches(sorted@)[m].1
                    &&& within_cap(batch@[m].entity_codes@.len(), batch@[m].estimated_rows)
                    &&& batch@[m].shard_id@ == "S_"@ + initial@ + "_"@ + zero_pad(digits_spec((m + 1) as nat), 4)
                    &&& batch@[m].estimated_archive_size_mb == archive_mb_spec(batch@[m].estimated_rows)
                },
                shard_views(shards@) == shard_views(base) + profile_shards(profile@, sorted@).take(k as int),
                forall|m: int| 0 <= m < shards@.len() ==> within_cap(
                    (#[trigger] shards@[m]).entity_codes@.len(),
                    shards@[m].estimated_rows,
                ),
            decreases batch.len() - k,
        {
            let ghost before = shards@;
            shards.push(batch[k].clone_shard());
            proof {
                assert(shard_view(shards@[before.len() as int]) == profile_shards(profile@, sorted@)[k as int]);
                assert(shard_views(shards@) =~= shard_views(before).push(shard_view(shards@[before.len() as int])));
                assert(profile_shards(profile@, sorted@).take(k + 1) =~= profile_shards(profile@, sorted@).take(k as int).push(
                    profile_shards(profile@, sorted@)[k as int],
                ));
                assert forall|m: int| 0 <= m < shards@.len() implies within_cap(
                    (#[trigger] shards@[m]).entity_codes@.len(),
                    shards@[m].estimated_rows,
                ) by {
                    if m < before.len() {
                        assert(shards@[m] == before[m]);
                    }
                }
            }
            k = k + 1;
        }
        proof {
            assert(profile_shards(profile@, sorted@).take(k as int) =~= profile_shards(profile@, sorted@));
            let ng = groups.push((profile@, sorted@));
            assert(ng.drop_last() =~= groups);
            groups = ng;
        }
        pi = pi + 1;
    }
    proof {
        assert forall|a: int, b: int| 0 <= a < b < groups.len() implies crate::text::seq_lt(
            #[trigger] groups[a].0,
            #[trigger] groups[b].0,
        ) by {
            assert(groups[a].0 == profiles@[a].0@);
            assert(groups[b].0 == profiles@[b].0@);
        }
        assert forall|e: int| 0 <= e < entities@.len() implies exists|g: int|
            0 <= g < groups.len() && #[trigger] groups[g].0 == (#[trigger] entities@[e]).scoping_profile@ by {
            let q = entities@[e].scoping_profile@;
            crate::sorted_map::lemma_sm_contains_iff(profiles@, q);
            let g = choose|g: int| 0 <= g < profiles@.len() && #[trigger] profiles@[g].0@ == q;
            assert(groups[g].0 == q);
        }
        assert(profile_groups(entities@, row_budgets@, groups));
    }
    Ok(ShardPlan { shards })
}

impl ShardAssignment {
    /// A field-by-field copy.
    pub fn clone_shard(&self) -> (r: ShardAssignment)
        ensures
            r.shard_id == self.shard_id,
            r.scoping_profile == self.scoping_profile,
            r.entity_codes@ == self.entity_codes@,
            r.estimated_rows == self.estimated_rows,
            r.estimated_archive_size_mb == self.estimated_archive_size_mb,
    {
        ShardAssignment {
            shard_id: self.shard_id.clone(),
            scoping_profile: self.scoping_profile.clone(),
            entity_codes: crate::aggregate::pre_elim::copy_strings(&self.entity_codes),
            estimated_rows: self.estimated_rows,
            estimated_archive_size_mb: self.estimated_archive_size_mb,
        }
    }
}

} // verus!
