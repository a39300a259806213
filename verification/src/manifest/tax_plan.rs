//! The tax group plan: which jurisdictions and entities the Pillar Two
//! rules cover, which jurisdictions the country-by-country report lists,
//! and which need transfer-pricing local files.
use vstd::prelude::*;

use crate::config::TaxGroupConfig;
use crate::errors::GroupError;
use crate::manifest::coa_master::string_views;
use crate::manifest::expansion::ExpandedEntity;
use crate::sorted_map::{key_sorted, lemma_sm_at, lemma_sm_contains_iff, sm_find, sm_map, sm_sorted, sm_upsert, sort_keyed};
use crate::text::seq_lt;

verus! {

/// Pillar Two coverage plan.
#[derive(Debug, Clone, PartialEq, Eq)]
pub struct PillarTwoPlan {
    /// The configured jurisdictions, sorted, without repeats.
    pub in_scope_jurisdictions: Vec<String>,
    /// Codes of the entities in those jurisdictions, sorted.
    pub entities_in_scope: Vec<String>,
}

/// Country-by-country report plan.
#[derive(Debug, Clone, PartialEq, Eq)]
pub struct CbcReportPlan {
    pub reporting_jurisdiction: String,
    /// Every entity country, sorted, without repeats.
    pub jurisdictions_to_report: Vec<String>,
}

/// Transfer pricing documentation plan.
#[derive(Debug, Clone, PartialEq, Eq)]
pub struct TransferPricingPlan {
    pub master_file: bool,
    /// The configured local-file jurisdictions, sorted, without repeats.
    pub local_file_jurisdictions: Vec<String>,
}

/// The tax group plan; a sub-plan is `None` when its configuration is
/// absent or disabled.
#[derive(Debug, Clone, PartialEq, Eq)]
pub struct TaxGroupPlan {
    pub pillar_two: Option<PillarTwoPlan>,
    pub cbc_report: Option<CbcReportPlan>,
    pub transfer_pricing: Option<TransferPricingPlan>,
}

/// Strictly increasing strings.
pub open spec fn strictly_sorted(s: Seq<String>) -> bool {
    forall|i: int, j: int| 0 <= i < j < s.len() ==> seq_lt(#[trigger] s[i]@, #[trigger] s[j]@)
}

/// The strings of a list, as a set.
pub open spec fn view_set(s: Seq<String>) -> Set<Seq<char>> {
    Set::new(|x: Seq<char>| exists|i: int| 0 <= i < s.len() && (#[trigger] s[i])@ == x)
}

/// The entities' countries.
pub open spec fn entity_countries(es: Seq<ExpandedEntity>) -> Set<Seq<char>> {
    Set::new(|x: Seq<char>| exists|i: int| 0 <= i < es.len() && (#[trigger] es[i]).country@ == x)
}

/// Every listed jurisdiction is an entity country.
pub open spec fn all_known_jurisdictions(js: Seq<String>, es: Seq<ExpandedEntity>) -> bool {
    forall|i: int| 0 <= i < js.len() ==> entity_countries(es).contains(#[trigger] js[i]@)
}

/// Codes of the entities whose country is in `js`, in entity order.
pub open spec fn codes_in_scope(es: Seq<ExpandedEntity>, js: Set<Seq<char>>) -> Seq<Seq<char>>
    decreases es.len(),
{
    if es.len() == 0 {
        Seq::empty()
    } else if js.contains(es.last().country@) {
        codes_in_scope(es.drop_last(), js).push(es.last().code@)
    } else {
        codes_in_scope(es.drop_last(), js)
    }
}

/// The configuration is consistent with the entities.
pub open spec fn tax_config_valid(cfg: TaxGroupConfig, es: Seq<ExpandedEntity>) -> bool {
    &&& match cfg.pillar_two {
        Some(p2) => p2.enabled ==> all_known_jurisdictions(p2.jurisdictions@, es),
        None => true,
    }
    &&& match cfg.cbc_report {
        Some(c) => c.enabled ==> c.reporting_jurisdiction is Some,
        None => true,
    }
    &&& match cfg.transfer_pricing {
        Some(tp) => all_known_jurisdictions(tp.local_files_for@, es),
        None => true,
    }
}

/// The keys of a sorted string set, in order.
fn set_keys(m: &Vec<(String, ())>) -> (r: Vec<String>)
    requires
        sm_sorted(m@),
    ensures
        strictly_sorted(r@),
        forall|x: Seq<char>| #[trigger] view_set(r@).contains(x) <==> sm_map(m@).contains_key(x),
{
    let mut out: Vec<String> = Vec::new();
    let mut i: usize = 0;
    while i < m.len()
        invariant
            i <= m@.len(),
            sm_sorted(m@),
            out@.len() == i,
            forall|t: int| 0 <= t < i ==> (#[trigger] out@[t])@ == m@[t].0@,
        decreases m.len() - i,
    {
        out.push(m[i].0.clone());
        i = i + 1;
    }
    proof {
        assert forall|a: int, b: int| 0 <= a < b < out@.len() implies seq_lt(#[trigger] out@[a]@, #[trigger] out@[b]@) by {
            assert(seq_lt(m@[a].0@, m@[b].0@));
        }
        assert forall|x: Seq<char>| #[trigger] view_set(out@).contains(x) <==> sm_map(m@).contains_key(x) by {
            lemma_sm_contains_iff(m@, x);
            if view_set(out@).contains(x) {
                let t = choose|t: int| 0 <= t < out@.len() && (#[trigger] out@[t])@ == x;
                assert(m@[t].0@ == x);
            }
            if sm_map(m@).contains_key(x) {
                let t = choose|t: int| 0 <= t < m@.len() && #[trigger] m@[t].0@ == x;
                assert(out@[t]@ == x);
            }
        }
    }
    out
}

/// The distinct strings of a list, sorted.
fn sorted_distinct(v: &Vec<String>) -> (r: Vec<String>)
    ensures
        strictly_sorted(r@),
        view_set(r@) == view_set(v@),
{
    let mut m: Vec<(String, ())> = Vec::new();
    let mut i: usize = 0;
    while i < v.len()
        invariant
            i <= v@.len(),
            sm_sorted(m@),
            forall|x: Seq<char>| #[trigger] sm_map(m@).contains_key(x) <==> view_set(v@.take(i as int)).contains(x),
        decreases v.len() - i,
    {
        sm_upsert(&mut m, v[i].clone(), ());
        proof {
            assert forall|x: Seq<char>| #[trigger] sm_map(m@).contains_key(x) <==> view_set(v@.take(i + 1)).contains(x) by {
                if view_set(v@.take(i as int)).contains(x) {
                    let t = choose|t: int| 0 <= t < v@.take(i as int).len() && (#[trigger] v@.take(i as int)[t])@ == x;
                    assert(v@.take(i + 1)[t] == v@.take(i as int)[t]);
                }
                if view_set(v@.take(i + 1)).contains(x) {
                    let t = choose|t: int| 0 <= t < v@.take(i + 1).len() && (#[trigger] v@.take(i + 1)[t])@ == x;
                    if t < i {
                        assert(v@.take(i as int)[t] == v@.take(i + 1)[t]);
                    }
                }
                assert(v@.take(i + 1)[i as int] == v@[i as int]);
            }
        }
        i = i + 1;
    }
    proof {
        assert(v@.take(i as int) =~= v@);
    }
    let r = set_keys(&m);
    proof {
        assert(view_set(r@) =~= view_set(v@));
    }
    r
}

/// The distinct entity countries, sorted.
fn country_set(es: &[ExpandedEntity]) -> (r: Vec<String>)
    ensures
        strictly_sorted(r@),
        view_set(r@) == entity_countries(es@),
{
    let mut m: Vec<(String, ())> = Vec::new();
    let mut i: usize = 0;
    while i < es.len()
        invariant
            i <= es@.len(),
            sm_sorted(m@),
            forall|x: Seq<char>| #[trigger] sm_map(m@).contains_key(x) <==> entity_countries(es@.take(i as int)).contains(x),
        decreases es.len() - i,
    {
        sm_upsert(&mut m, es[i].country.clone(), ());
        proof {
            assert forall|x: Seq<char>| #[trigger] sm_map(m@).contains_key(x) <==> entity_countries(es@.take(i + 1)).contains(x) by {
                if entity_countries(es@.take(i as int)).contains(x) {
                    let t = choose|t: int| 0 <= t < es@.take(i as int).len() && (#[trigger] es@.take(i as int)[t]).country@ == x;
                    assert(es@.take(i + 1)[t] == es@.take(i as int)[t]);
                }
                if entity_countries(es@.take(i + 1)).contains(x) {
                    let t = choose|t: int| 0 <= t < es@.take(i + 1).len() && (#[trigger] es@.take(i + 1)[t]).country@ == x;
                    if t < i {
                        assert(es@.take(i as int)[t] == es@.take(i + 1)[t]);
                    }
                }
                assert(es@.take(i + 1)[i as int] == es@[i as int]);
            }
        }
        i = i + 1;
    }
    proof {
        assert(es@.take(i as int) =~= es@);
    }
    let r = set_keys(&m);
    proof {
        assert(view_set(r@) =~= entity_countries(es@));
    }
    r
}

fn contains_str(v: &Vec<String>, x: &str) -> (r: bool)
    ensures
        r == view_set(v@).contains(x@),
{
    let mut i: usize = 0;
    while i < v.len()
        invariant
            i <= v@.len(),
            forall|t: int| 0 <= t < i ==> (#[trigger] v@[t])@ != x@,
        decreases v.len() - i,
    {
        if crate::text::str_eq(v[i].as_str(), x) {
            return true;
        }
        i = i + 1;
    }
    false
}

/// Check every jurisdiction against the entity countries.
fn check_jurisdictions(js: &Vec<String>, countries: &Vec<String>, what: &str, es: Ghost<Seq<ExpandedEntity>>) -> (r: Result<(), GroupError>)
    requires
        view_set(countries@) == entity_countries(es@),
    ensures
        r is Ok <==> all_known_jurisdictions(js@, es@),
        r is Err ==> r matches Err(GroupError::Config(_)),
{
    let mut i: usize = 0;
    while i < js.len()
        invariant
            i <= js@.len(),
            view_set(countries@) == entity_countries(es@),
            forall|t: int| 0 <= t < i ==> entity_countries(es@).contains(#[trigger] js@[t]@),
        decreases js.len() - i,
    {
        if !contains_str(countries, js[i].as_str()) {
            return Err(GroupError::Config(
                what.to_string().concat(" jurisdiction '").concat(js[i].as_str()).concat(
                    "' is not present in any entity's country",
                ),
            ));
        }
        i = i + 1;
    }
    Ok(())
}

/// Build the tax group plan from the configuration and the entities.
pub fn build_tax_group_plan(cfg: &TaxGroupConfig, entities: &[ExpandedEntity]) -> (r: Result<TaxGroupPlan, GroupError>)
    ensures
        r is Ok <==> tax_config_valid(*cfg, entities@),
        r is Err ==> r matches Err(GroupError::Config(_)),
        r matches Ok(plan) ==> {
            &&& match cfg.pillar_two {
                Some(p2) if p2.enabled => plan.pillar_two matches Some(pt) && {
                    &&& strictly_sorted(pt.in_scope_jurisdictions@)
                    &&& view_set(pt.in_scope_jurisdictions@) == view_set(p2.jurisdictions@)
                    &&& key_sorted(pt.entities_in_scope@)
                    &&& string_views(pt.entities_in_scope@).to_multiset() == codes_in_scope(
                        entities@,
                        view_set(p2.jurisdictions@),
                    ).to_multiset()
                },
                _ => plan.pillar_two is None,
            }
            &&& match cfg.cbc_report {
                Some(c) if c.enabled => plan.cbc_report matches Some(cp) && {
                    &&& cp.reporting_jurisdiction == c.reporting_jurisdiction->0
                    &&& strictly_sorted(cp.jurisdictions_to_report@)
                    &&& view_set(cp.jurisdictions_to_report@) == entity_countries(entities@)
                },
                _ => plan.cbc_report is None,
            }
            &&& match cfg.transfer_pricing {
                Some(tp) => plan.transfer_pricing matches Some(tpp) && {
                    &&& tpp.master_file == tp.master_file
                    &&& strictly_sorted(tpp.local_file_jurisdictions@)
                    &&& view_set(tpp.local_file_jurisdictions@) == view_set(tp.local_files_for@)
                },
                None => plan.transfer_pricing is None,
            }
        },
{
    let countries = country_set(entities);
    let pillar_two = match &cfg.pillar_two {
        Some(p2) => {
            if p2.enabled {
                match check_jurisdictions(&p2.jurisdictions, &countries, "pillar_two", Ghost(entities@)) {
                    Ok(()) => {},
                    Err(e) => {
                        return Err(e);
                    },
                }
                let in_scope = sorted_distinct(&p2.jurisdictions);
                let mut codes: Vec<String> = Vec::new();
                let mut i: usize = 0;
                while i < entities.len()
                    invariant
                        i <= entities@.len(),
                        view_set(in_scope@) == view_set(p2.jurisdictions@),
                        string_views(codes@) == codes_in_scope(entities@.take(i as int), view_set(p2.jurisdictions@)),
                    decreases entities.len() - i,
                {
                    proof {
                        assert(entities@.take(i + 1).drop_last() =~= entities@.take(i as int));
                    }
                    if contains_str(&in_scope, entities[i].country.as_str()) {
                        codes.push(entities[i].code.clone());
                    }
                    proof {
                        assert(string_views(codes@) =~= codes_in_scope(entities@.take(i + 1), view_set(p2.jurisdictions@)));
                    }
                    i = i + 1;
                }
                proof {
                    assert(entities@.take(i as int) =~= entities@);
                }
                let ghost c0 = codes@;
                let sorted_codes = sort_keyed(codes);
                proof {
                    let f = |s: String| s@;
                    crate::sorted_map::lemma_multiset_map(sorted_codes@, c0, f);
                    assert(string_views(sorted_codes@) =~= sorted_codes@.map_values(f));
                    assert(string_views(c0) =~= c0.map_values(f));
                }
                Some(PillarTwoPlan { in_scope_jurisdictions: in_scope, entities_in_scope: sorted_codes })
            } else {
                None
            }
        },
        None => None,
    };
    let cbc_report = match &cfg.cbc_report {
        Some(c) => {
            if c.enabled {
                let rj = match &c.reporting_jurisdiction {
                    Some(j) => j.clone(),
                    None => {
                        return Err(
                            GroupError::Config("cbc_report.reporting_jurisdiction is required when enabled = true".to_string()),
                        );
                    },
                };
                let mut to_report: Vec<String> = Vec::new();
                let mut i: usize = 0;
                while i < countries.len()
                    invariant
                        i <= countries@.len(),
                        to_report@ == countries@.take(i as int),
                    decreases countries.len() - i,
                {
                    to_report.push(countries[i].clone());
                    proof {
                        assert(to_report@ =~= countries@.take(i + 1));
                    }
                    i = i + 1;
                }
                proof {
                    assert(countries@.take(i as int) =~= countries@);
                }
                Some(CbcReportPlan { reporting_jurisdiction: rj, jurisdictions_to_report: to_report })
            } else {
                None
            }
        },
        None => None,
    };
    let transfer_pricing = match &cfg.transfer_pricing {
        Some(tp) => {
            match check_jurisdictions(&tp.local_files_for, &countries, "transfer_pricing.local_files_for", Ghost(entities@)) {
                Ok(()) => {},
                Err(e) => {
                    return Err(e);
                },
            }
            Some(
                TransferPricingPlan {
                    master_file: tp.master_file,
                    local_file_jurisdictions: sorted_distinct(&tp.local_files_for),
                },
            )
        },
        None => None,
    };
    Ok(TaxGroupPlan { pillar_two, cbc_report, transfer_pricing })
}

} // verus!
