//! The cash-generating-unit plan: the validated unit definitions and
//! their goodwill allocations, sorted for determinism.
use vstd::prelude::*;

use crate::config::{CguConfig, CguDefinitionEntry, CguGoodwillAllocationEntry};
use crate::date::Date;
use crate::dec::{dec_lt, Dec};
use crate::errors::GroupError;
use crate::manifest::coa_master::string_views;
use crate::manifest::expansion::ExpandedEntity;
use crate::sorted_map::{key_sorted, lemma_multiset_map, sort_keyed, SortKey};
use crate::text::{lemma_seq_lt_asym, lemma_seq_lt_irrefl, lemma_seq_lt_total, lemma_seq_lt_trans, seq_lt, str_eq, str_lt};
use vstd::multiset::Multiset;

verus! {

/// A cash-generating unit.
#[derive(Debug, Clone)]
pub struct CashGeneratingUnit {
    pub cgu_id: String,
    pub name: String,
    pub member_entity_codes: Vec<String>,
    pub segment_code: Option<String>,
}

/// Goodwill allocated to a unit from a business combination.
#[derive(Debug, Clone)]
pub struct GoodwillAllocation {
    pub cgu_id: String,
    pub business_combination_id: String,
    pub goodwill_amount: Dec,
    pub allocation_date: Date,
}

/// The plan: units sorted by id, allocations by unit then combination.
#[derive(Debug, Clone)]
pub struct CguPlan {
    pub cgus: Vec<CashGeneratingUnit>,
    pub goodwill_allocations: Vec<GoodwillAllocation>,
}

impl SortKey for CashGeneratingUnit {
    open spec fn sort_key(&self) -> Seq<char> {
        self.cgu_id@
    }

    fn key_str(&self) -> (r: &str) {
        self.cgu_id.as_str()
    }
}

pub open spec fn opt_view(o: Option<String>) -> Option<Seq<char>> {
    match o {
        Some(s) => Some(s@),
        None => None,
    }
}

/// A unit as plain values.
pub open spec fn cgu_view(c: CashGeneratingUnit) -> (Seq<char>, Seq<char>, Seq<Seq<char>>, Option<Seq<char>>) {
    (c.cgu_id@, c.name@, string_views(c.member_entity_codes@), opt_view(c.segment_code))
}

/// A unit definition as plain values.
pub open spec fn def_view(d: CguDefinitionEntry) -> (Seq<char>, Seq<char>, Seq<Seq<char>>, Option<Seq<char>>) {
    (d.cgu_id@, d.name@, string_views(d.member_entity_codes@), opt_view(d.segment_code))
}

/// An allocation as plain values.
pub open spec fn alloc_view(a: GoodwillAllocation) -> (Seq<char>, Seq<char>, Dec, Date) {
    (a.cgu_id@, a.business_combination_id@, a.goodwill_amount, a.allocation_date)
}

/// A configured allocation as plain values.
pub open spec fn entry_view(a: CguGoodwillAllocationEntry) -> (Seq<char>, Seq<char>, Dec, Date) {
    (a.cgu_id@, a.business_combination_id@, a.goodwill_amount, a.allocation_date)
}

/// Allocation order: by unit id, then business combination id.
pub open spec fn alloc_lt(a: GoodwillAllocation, b: GoodwillAllocation) -> bool {
    seq_lt(a.cgu_id@, b.cgu_id@) || (a.cgu_id@ == b.cgu_id@ && seq_lt(a.business_combination_id@, b.business_combination_id@))
}

pub open spec fn allocs_sorted(s: Seq<GoodwillAllocation>) -> bool {
    forall|i: int, j: int| 0 <= i < j < s.len() ==> !alloc_lt(#[trigger] s[j], #[trigger] s[i])
}

proof fn lemma_alloc_lt_trans(a: GoodwillAllocation, b: GoodwillAllocation, c: GoodwillAllocation)
    requires
        alloc_lt(a, b),
        alloc_lt(b, c),
    ensures
        alloc_lt(a, c),
{
    if seq_lt(a.cgu_id@, b.cgu_id@) && seq_lt(b.cgu_id@, c.cgu_id@) {
        lemma_seq_lt_trans(a.cgu_id@, b.cgu_id@, c.cgu_id@);
    } else if seq_lt(a.business_combination_id@, b.business_combination_id@) && seq_lt(
        b.business_combination_id@,
        c.business_combination_id@,
    ) && a.cgu_id@ == b.cgu_id@ && b.cgu_id@ == c.cgu_id@ {
        lemma_seq_lt_trans(a.business_combination_id@, b.business_combination_id@, c.business_combination_id@);
    }
}

proof fn lemma_alloc_lt_asym(a: GoodwillAllocation, b: GoodwillAllocation)
    ensures
        !(alloc_lt(a, b) && alloc_lt(b, a)),
{
    lemma_seq_lt_asym(a.cgu_id@, b.cgu_id@);
    lemma_seq_lt_asym(a.business_combination_id@, b.business_combination_id@);
    lemma_seq_lt_irrefl(a.cgu_id@);
}

proof fn lemma_alloc_lt_total(a: GoodwillAllocation, b: GoodwillAllocation)
    requires
        !alloc_lt(a, b),
        !alloc_lt(b, a),
    ensures
        a.cgu_id@ == b.cgu_id@ && a.business_combination_id@ == b.business_combination_id@,
{
    if a.cgu_id@ != b.cgu_id@ {
        lemma_seq_lt_total(a.cgu_id@, b.cgu_id@);
    } else if a.business_combination_id@ != b.business_combination_id@ {
        lemma_seq_lt_total(a.business_combination_id@, b.business_combination_id@);
    }
}

fn alloc_less(a: &GoodwillAllocation, b: &GoodwillAllocation) -> (r: bool)
    ensures
        r == alloc_lt(*a, *b),
{
    str_lt(a.cgu_id.as_str(), b.cgu_id.as_str()) || (str_eq(a.cgu_id.as_str(), b.cgu_id.as_str()) && str_lt(
        a.business_combination_id.as_str(),
        b.business_combination_id.as_str(),
    ))
}

/// Stable insertion sort of the allocations by unit, then combination.
fn sort_allocations(v: Vec<GoodwillAllocation>) -> (r: Vec<GoodwillAllocation>)
    ensures
        allocs_sorted(r@),
        r@.to_multiset() == v@.to_multiset(),
        r@.len() == v@.len(),
{
    broadcast use vstd::seq_lib::group_to_multiset_ensures;
    broadcast use vstd::multiset::group_multiset_axioms;

    let ghost orig = v@;
    let mut src = v;
    let mut out: Vec<GoodwillAllocation> = Vec::new();
    proof {
        assert(out@.to_multiset() =~= Multiset::empty());
        assert(out@.to_multiset().add(src@.to_multiset()) =~= orig.to_multiset());
    }
    while src.len() > 0
        invariant
            allocs_sorted(out@),
            out@.to_multiset().add(src@.to_multiset()) == orig.to_multiset(),
            out@.len() + src@.len() == orig.len(),
        decreases src.len(),
    {
        let ghost s0 = src@;
        let x = src.remove(0);
        proof {
            vstd::seq_lib::to_multiset_remove(s0, 0);
            assert(s0[0] == x);
            vstd::seq_lib::to_multiset_contains(s0, x);
        }
        let mut p: usize = 0;
        while p < out.len()
            invariant
                p <= out@.len(),
                allocs_sorted(out@),
                forall|j: int| 0 <= j < p ==> !alloc_lt(x, #[trigger] out@[j]),
            ensures
                p <= out@.len(),
                forall|j: int| 0 <= j < p ==> !alloc_lt(x, #[trigger] out@[j]),
                p < out@.len() ==> alloc_lt(x, out@[p as int]),
            decreases out.len() - p,
        {
            if alloc_less(&x, &out[p]) {
                break;
            }
            p = p + 1;
        }
        let ghost o0 = out@;
        proof {
            assert forall|j: int| p <= j < o0.len() implies alloc_lt(x, #[trigger] o0[j]) by {
                if j > p {
                    if alloc_lt(o0[p as int], o0[j]) {
                        lemma_alloc_lt_trans(x, o0[p as int], o0[j]);
                    } else {
                        assert(!alloc_lt(o0[j], o0[p as int]));
                        lemma_alloc_lt_total(o0[p as int], o0[j]);
                    }
                }
            }
        }
        out.insert(p, x);
        proof {
            vstd::seq_lib::to_multiset_insert(o0, p as int, x);
            assert forall|a: int, b: int| 0 <= a < b < out@.len() implies !alloc_lt(#[trigger] out@[b], #[trigger] out@[a]) by {
                if b < p {
                    assert(out@[a] == o0[a] && out@[b] == o0[b]);
                } else if b == p {
                    assert(out@[a] == o0[a]);
                } else if a < p {
                    assert(out@[a] == o0[a] && out@[b] == o0[b - 1]);
                    if alloc_lt(o0[b - 1], o0[a]) {
                        lemma_alloc_lt_trans(x, o0[b - 1], o0[a]);
                    }
                } else if a == p {
                    assert(out@[b] == o0[b - 1]);
                    lemma_alloc_lt_asym(x, o0[b - 1]);
                } else {
                    assert(out@[a] == o0[a - 1] && out@[b] == o0[b - 1]);
                }
            }
            assert(out@.to_multiset().add(src@.to_multiset()) =~= orig.to_multiset());
        }
    }
    proof {
        assert(src@.to_multiset() =~= Multiset::empty());
        assert(out@.to_multiset() =~= orig.to_multiset());
    }
    out
}

/// Some entity carries `code`.
pub open spec fn entity_known(entities: Seq<ExpandedEntity>, code: Seq<char>) -> bool {
    exists|k: int| 0 <= k < entities.len() && (#[trigger] entities[k]).code@ == code
}

/// Unit `i`'s id is not used by an earlier unit, it has members, and
/// every member is an entity of the group.
pub open spec fn cgu_def_valid(cgus: Seq<CguDefinitionEntry>, entities: Seq<ExpandedEntity>, i: int) -> bool {
    &&& forall|j: int| 0 <= j < i ==> (#[trigger] cgus[j]).cgu_id@ != cgus[i].cgu_id@
    &&& cgus[i].member_entity_codes@.len() > 0
    &&& forall|m: int| 0 <= m < cgus[i].member_entity_codes@.len() ==> entity_known(
        entities,
        #[trigger] cgus[i].member_entity_codes@[m]@,
    )
}

/// Allocation `a` names a defined unit and is not negative.
pub open spec fn alloc_entry_valid(cgus: Seq<CguDefinitionEntry>, a: CguGoodwillAllocationEntry) -> bool {
    &&& exists|j: int| 0 <= j < cgus.len() && (#[trigger] cgus[j]).cgu_id@ == a.cgu_id@
    &&& a.goodwill_amount.units() >= 0
}

/// The configuration describes a valid plan.
pub open spec fn cgu_config_valid(cfg: CguConfig, entities: Seq<ExpandedEntity>) -> bool {
    &&& forall|i: int| 0 <= i < cfg.cgus@.len() ==> #[trigger] cgu_def_valid(cfg.cgus@, entities, i)
    &&& forall|k: int| 0 <= k < cfg.goodwill_allocations@.len() ==> alloc_entry_valid(
        cfg.cgus@,
        #[trigger] cfg.goodwill_allocations@[k],
    )
}

fn copy_strings(v: &Vec<String>) -> (r: Vec<String>)
    ensures
        r@ == v@,
{
    crate::aggregate::pre_elim::copy_strings(v)
}

fn entity_exists(entities: &[ExpandedEntity], code: &str) -> (r: bool)
    ensures
        r == entity_known(entities@, code@),
{
    let mut k: usize = 0;
    while k < entities.len()
        invariant
            k <= entities@.len(),
            forall|j: int| 0 <= j < k ==> (#[trigger] entities@[j]).code@ != code@,
        decreases entities.len() - k,
    {
        if str_eq(entities[k].code.as_str(), code) {
            return true;
        }
        k = k + 1;
    }
    false
}

fn cgu_defined(cgus: &Vec<CguDefinitionEntry>, upto: usize, id: &str) -> (r: bool)
    requires
        upto <= cgus@.len(),
    ensures
        r == exists|j: int| 0 <= j < upto && (#[trigger] cgus@[j]).cgu_id@ == id@,
{
    let mut j: usize = 0;
    while j < upto
        invariant
            upto <= cgus@.len(),
            j <= upto,
            forall|t: int| 0 <= t < j ==> (#[trigger] cgus@[t]).cgu_id@ != id@,
        decreases upto - j,
    {
        if str_eq(cgus[j].cgu_id.as_str(), id) {
            return true;
        }
        j = j + 1;
    }
    false
}

/// Validate the configuration and build the plan: units sorted by id,
/// allocations sorted by unit then business combination.
pub fn build_cgu_plan(cfg: &CguConfig, entities: &[ExpandedEntity]) -> (r: Result<CguPlan, GroupError>)
    ensures
        r is Ok <==> cgu_config_valid(*cfg, entities@),
        r is Err ==> r matches Err(GroupError::Config(_)),
        r matches Ok(plan) ==> {
            &&& key_sorted(plan.cgus@)
            &&& plan.cgus@.map_values(|c: CashGeneratingUnit| cgu_view(c)).to_multiset() == cfg.cgus@.map_values(
                |d: CguDefinitionEntry| def_view(d),
            ).to_multiset()
            &&& allocs_sorted(plan.goodwill_allocations@)
            &&& plan.goodwill_allocations@.map_values(|a: GoodwillAllocation| alloc_view(a)).to_multiset()
                == cfg.goodwill_allocations@.map_values(|a: CguGoodwillAllocationEntry| entry_view(a)).to_multiset()
        },
{
    let cgus = &cfg.cgus;
    let mut i: usize = 0;
    while i < cgus.len()
        invariant
            i <= cgus@.len(),
            cgus@ == cfg.cgus@,
            forall|t: int| 0 <= t < i ==> #[trigger] cgu_def_valid(cgus@, entities@, t),
        decreases cgus.len() - i,
    {
        let c = &cgus[i];
        if cgu_defined(cgus, i, c.cgu_id.as_str()) {
            proof {
                let j = choose|j: int| 0 <= j < i && (#[trigger] cgus@[j]).cgu_id@ == c.cgu_id@;
                assert(!cgu_def_valid(cgus@, entities@, i as int));
            }
            return Err(GroupError::Config(
                "cgu plan: duplicate cgu_id `".to_string().concat(c.cgu_id.as_str()).concat("`, every CGU must have a unique id"),
            ));
        }
        if c.member_entity_codes.len() == 0 {
            proof {
                assert(!cgu_def_valid(cgus@, entities@, i as int));
            }
            return Err(GroupError::Config(
                "cgu plan: cgu `".to_string().concat(c.cgu_id.as_str()).concat(
                    "` has no member_entity_codes, a CGU must aggregate at least one entity's cash flows",
                ),
            ));
        }
        let mut m: usize = 0;
        while m < c.member_entity_codes.len()
            invariant
                m <= c.member_entity_codes@.len(),
                i < cgus@.len(),
                c == cgus@[i as int],
                cgus@ == cfg.cgus@,
                forall|t: int| 0 <= t < m ==> entity_known(entities@, #[trigger] c.member_entity_codes@[t]@),
            decreases c.member_entity_codes.len() - m,
        {
            if !entity_exists(entities, c.member_entity_codes[m].as_str()) {
                proof {
                    assert(!entity_known(entities@, cgus@[i as int].member_entity_codes@[m as int]@));
                    assert(!cgu_def_valid(cgus@, entities@, i as int));
                }
                return Err(GroupError::Config(
                    "cgu plan: cgu `".to_string().concat(c.cgu_id.as_str()).concat("` references member entity `").concat(
                        c.member_entity_codes[m].as_str(),
                    ).concat("` which is not present in the ownership graph"),
                ));
            }
            m = m + 1;
        }
        proof {
            assert(cgu_def_valid(cgus@, entities@, i as int));
        }
        i = i + 1;
    }
    let allocs = &cfg.goodwill_allocations;
    let mut k: usize = 0;
    while k < allocs.len()
        invariant
            k <= allocs@.len(),
            allocs@ == cfg.goodwill_allocations@,
            cgus@ == cfg.cgus@,
            forall|t: int| 0 <= t < cgus@.len() ==> #[trigger] cgu_def_valid(cgus@, entities@, t),
            forall|t: int| 0 <= t < k ==> alloc_entry_valid(cgus@, #[trigger] allocs@[t]),
        decreases allocs.len() - k,
    {
        let a = &allocs[k];
        if !cgu_defined(cgus, cgus.len(), a.cgu_id.as_str()) {
            return Err(GroupError::Config(
                "cgu plan: goodwill allocation references cgu_id `".to_string().concat(a.cgu_id.as_str()).concat("` (BC `").concat(
                    a.business_combination_id.as_str(),
                ).concat("`) which has no matching CGU definition"),
            ));
        }
        if dec_lt(a.goodwill_amount, Dec::zero()) {
            return Err(GroupError::Config(
                "cgu plan: goodwill allocation for cgu `".to_string().concat(a.cgu_id.as_str()).concat("` (BC `").concat(
                    a.business_combination_id.as_str(),
                ).concat("`) has negative goodwill_amount, bargain purchases produce no allocation row"),
            ));
        }
        k = k + 1;
    }
    let mut units: Vec<CashGeneratingUnit> = Vec::new();
    let mut i2: usize = 0;
    while i2 < cgus.len()
        invariant
            i2 <= cgus@.len(),
            units@.len() == i2,
            forall|t: int| 0 <= t < i2 ==> cgu_view(#[trigger] units@[t]) == def_view(cgus@[t]),
        decreases cgus.len() - i2,
    {
        let c = &cgus[i2];
        let seg = match &c.segment_code {
            Some(s) => Some(s.clone()),
            None => None,
        };
        units.push(
            CashGeneratingUnit {
                cgu_id: c.cgu_id.clone(),
                name: c.name.clone(),
                member_entity_codes: copy_strings(&c.member_entity_codes),
                segment_code: seg,
            },
        );
        i2 = i2 + 1;
    }
    let mut gas: Vec<GoodwillAllocation> = Vec::new();
    let mut k2: usize = 0;
    while k2 < allocs.len()
        invariant
            k2 <= allocs@.len(),
            gas@.len() == k2,
            forall|t: int| 0 <= t < k2 ==> alloc_view(#[trigger] gas@[t]) == entry_view(allocs@[t]),
        decreases allocs.len() - k2,
    {
        let a = &allocs[k2];
        gas.push(
            GoodwillAllocation {
                cgu_id: a.cgu_id.clone(),
                business_combination_id: a.business_combination_id.clone(),
                goodwill_amount: a.goodwill_amount,
                allocation_date: a.allocation_date,
            },
        );
        k2 = k2 + 1;
    }
    let ghost u0 = units@;
    let ghost g0 = gas@;
    let sorted_units = sort_keyed(units);
    let sorted_allocs = sort_allocations(gas);
    proof {
        let f = |c: CashGeneratingUnit| cgu_view(c);
        let fd = |d: CguDefinitionEntry| def_view(d);
        lemma_multiset_map(sorted_units@, u0, f);
        assert(u0.map_values(f) =~= cgus@.map_values(fd));
        let h = |a: GoodwillAllocation| alloc_view(a);
        let he = |a: CguGoodwillAllocationEntry| entry_view(a);
        lemma_multiset_map(sorted_allocs@, g0, h);
        assert(g0.map_values(h) =~= allocs@.map_values(he));
    }
    Ok(CguPlan { cgus: sorted_units, goodwill_allocations: sorted_allocs })
}

} // verus!
