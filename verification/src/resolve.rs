//! Three-level configuration inheritance: the defaults, then the entity's
//! scoping profile, then the entity's own overrides, deep-merged; and the
//! fully resolved entity read from the result.
use vstd::prelude::*;

use crate::config::ConsolidationMethod;
use crate::dec::Dec;
use crate::errors::GroupError;
use crate::manifest::builder::{clone_opt, opt_view};
use crate::manifest::expansion::EntityConfig;
use crate::sorted_map::{lemma_sm_at, sm_find, sm_map, sm_sorted};
use crate::text::str_eq;

verus! {

/// A configuration value as a YAML document holds it, map keys taken as
/// text and numbers as their text.
#[derive(Debug)]
pub enum ConfigValue {
    Null,
    Bool(bool),
    Number(String),
    Str(String),
    Sequence(Vec<ConfigValue>),
    Mapping(Vec<(String, ConfigValue)>),
}

/// What a configuration value denotes.
pub enum ValueModel {
    Null,
    Bool(bool),
    Number(Seq<char>),
    Str(Seq<char>),
    Sequence(Seq<ValueModel>),
    Mapping(Seq<(Seq<char>, ValueModel)>),
}

pub open spec fn value_model(v: ConfigValue) -> ValueModel
    decreases v,
{
    match v {
        ConfigValue::Null => ValueModel::Null,
        ConfigValue::Bool(b) => ValueModel::Bool(b),
        ConfigValue::Number(s) => ValueModel::Number(s@),
        ConfigValue::Str(s) => ValueModel::Str(s@),
        ConfigValue::Sequence(xs) => ValueModel::Sequence(list_models(xs@)),
        ConfigValue::Mapping(es) => ValueModel::Mapping(entry_models(es@)),
    }
}

pub open spec fn list_models(s: Seq<ConfigValue>) -> Seq<ValueModel>
    decreases s,
{
    if s.len() == 0 {
        Seq::empty()
    } else {
        list_models(s.subrange(0, s.len() - 1)).push(value_model(s[s.len() - 1]))
    }
}

pub open spec fn entry_models(s: Seq<(String, ConfigValue)>) -> Seq<(Seq<char>, ValueModel)>
    decreases s,
{
    if s.len() == 0 {
        Seq::empty()
    } else {
        entry_models(s.subrange(0, s.len() - 1)).push((s[s.len() - 1].0@, value_model(s[s.len() - 1].1)))
    }
}

proof fn lemma_list_models(s: Seq<ConfigValue>)
    ensures
        list_models(s).len() == s.len(),
        forall|i: int| 0 <= i < s.len() ==> #[trigger] list_models(s)[i] == value_model(s[i]),
    decreases s.len(),
{
    if s.len() > 0 {
        let t = s.subrange(0, s.len() - 1);
        lemma_list_models(t);
        assert forall|i: int| 0 <= i < s.len() implies #[trigger] list_models(s)[i] == value_model(s[i]) by {
            if i < s.len() - 1 {
                assert(t[i] == s[i]);
            }
        }
    }
}

proof fn lemma_entry_models(s: Seq<(String, ConfigValue)>)
    ensures
        entry_models(s).len() == s.len(),
        forall|i: int| 0 <= i < s.len() ==> #[trigger] entry_models(s)[i] == (s[i].0@, value_model(s[i].1)),
    decreases s.len(),
{
    if s.len() > 0 {
        let t = s.subrange(0, s.len() - 1);
        lemma_entry_models(t);
        assert forall|i: int| 0 <= i < s.len() implies #[trigger] entry_models(s)[i] == (s[i].0@, value_model(s[i].1)) by {
            if i < s.len() - 1 {
                assert(t[i] == s[i]);
            }
        }
    }
}

/// The index of the first entry keyed `k`.
pub open spec fn key_index(s: Seq<(Seq<char>, ValueModel)>, k: Seq<char>) -> Option<int>
    decreases s.len(),
{
    if s.len() == 0 {
        None
    } else {
        match key_index(s.drop_last(), k) {
            Some(i) => Some(i),
            None => if s.last().0 == k {
                Some(s.len() - 1)
            } else {
                None
            },
        }
    }
}

proof fn lemma_key_index(s: Seq<(Seq<char>, ValueModel)>, k: Seq<char>)
    ensures
        match key_index(s, k) {
            Some(i) => 0 <= i < s.len() && s[i].0 == k && forall|j: int| 0 <= j < i ==> #[trigger] s[j].0 != k,
            None => forall|j: int| 0 <= j < s.len() ==> #[trigger] s[j].0 != k,
        },
    decreases s.len(),
{
    if s.len() > 0 {
        lemma_key_index(s.drop_last(), k);
        assert forall|j: int| 0 <= j < s.len() - 1 implies #[trigger] s[j] == s.drop_last()[j] by {}
    }
}

/// `overlay` deep-merged into `base`: two mappings merge key by key,
/// in the overlay's order (a key of both merges its values, a new key
/// is appended); otherwise the overlay replaces the base.
pub open spec fn deep_merge(base: ValueModel, overlay: ValueModel) -> ValueModel
    decreases overlay,
{
    match overlay {
        ValueModel::Mapping(om) => match base {
            ValueModel::Mapping(bm) => ValueModel::Mapping(merge_entries(bm, om)),
            _ => overlay,
        },
        _ => overlay,
    }
}

pub open spec fn merge_entries(bm: Seq<(Seq<char>, ValueModel)>, om: Seq<(Seq<char>, ValueModel)>) -> Seq<(Seq<char>, ValueModel)>
    decreases om,
{
    if om.len() == 0 {
        bm
    } else {
        let acc = merge_entries(bm, om.subrange(0, om.len() - 1));
        let e = om[om.len() - 1];
        match key_index(acc, e.0) {
            Some(i) => acc.update(i, (e.0, deep_merge(acc[i].1, e.1))),
            None => acc.push(e),
        }
    }
}

/// A copy of a configuration value.
pub fn copy_value(v: &ConfigValue) -> (r: ConfigValue)
    ensures
        value_model(r) == value_model(*v),
    decreases v,
{
    match v {
        ConfigValue::Null => ConfigValue::Null,
        ConfigValue::Bool(b) => ConfigValue::Bool(*b),
        ConfigValue::Number(s) => ConfigValue::Number(s.clone()),
        ConfigValue::Str(s) => ConfigValue::Str(s.clone()),
        ConfigValue::Sequence(xs) => {
            let mut out: Vec<ConfigValue> = Vec::new();
            let mut i: usize = 0;
            while i < xs.len()
                invariant
                    *v == ConfigValue::Sequence(*xs),
                    i <= xs@.len(),
                    out@.len() == i,
                    forall|j: int| 0 <= j < i ==> value_model(#[trigger] out@[j]) == value_model(xs@[j]),
                decreases xs.len() - i,
            {
                proof {
                    vstd::std_specs::vec::axiom_vec_index_decreases(*xs, i as int);
                    assert(decreases_to!(*v => (*v)->Sequence_0));
                    assert(decreases_to!(*v => xs@[i as int]));
                }
                let c = copy_value(&xs[i]);
                out.push(c);
                i = i + 1;
            }
            proof {
                lemma_list_models(out@);
                lemma_list_models(xs@);
                assert(list_models(out@) =~= list_models(xs@));
            }
            ConfigValue::Sequence(out)
        },
        ConfigValue::Mapping(es) => {
            let mut out: Vec<(String, ConfigValue)> = Vec::new();
            let mut i: usize = 0;
            while i < es.len()
                invariant
                    *v == ConfigValue::Mapping(*es),
                    i <= es@.len(),
                    out@.len() == i,
                    forall|j: int| 0 <= j < i ==> (#[trigger] out@[j]).0@ == es@[j].0@ && value_model(out@[j].1) == value_model(es@[j].1),
                decreases es.len() - i,
            {
                proof {
                    vstd::std_specs::vec::axiom_vec_index_decreases(*es, i as int);
                    assert(decreases_to!(*v => (*v)->Mapping_0));
                    assert(decreases_to!(*v => es@[i as int]));
                    assert(decreases_to!(*v => es@[i as int].1));
                }
                let c = copy_value(&es[i].1);
                out.push((es[i].0.clone(), c));
                i = i + 1;
            }
            proof {
                lemma_entry_models(out@);
                lemma_entry_models(es@);
                assert(entry_models(out@) =~= entry_models(es@));
            }
            ConfigValue::Mapping(out)
        },
    }
}

/// The index of the first entry keyed `k`.
fn find_key(acc: &Vec<(String, ConfigValue)>, k: &str) -> (r: Option<usize>)
    ensures
        match r {
            Some(i) => key_index(entry_models(acc@), k@) == Some(i as int),
            None => key_index(entry_models(acc@), k@) is None,
        },
{
    proof {
        lemma_entry_models(acc@);
        lemma_key_index(entry_models(acc@), k@);
    }
    let mut j: usize = 0;
    while j < acc.len()
        invariant
            j <= acc@.len(),
            entry_models(acc@).len() == acc@.len(),
            forall|t: int| 0 <= t < acc@.len() ==> #[trigger] entry_models(acc@)[t] == (acc@[t].0@, value_model(acc@[t].1)),
            forall|t: int| 0 <= t < j ==> acc@[t].0@ != k@,
        decreases acc.len() - j,
    {
        if str_eq(acc[j].0.as_str(), k) {
            proof {
                let m = entry_models(acc@);
                lemma_key_index(m, k@);
                assert(m[j as int].0 == k@);
                match key_index(m, k@) {
                    Some(i) => {
                        if i < j {
                            assert(m[i].0 == acc@[i].0@);
                        } else if i > j {
                            assert(m[j as int].0 != k@);
                        }
                    },
                    None => {
                        assert(m[j as int].0 != k@);
                    },
                }
            }
            return Some(j);
        }
        j = j + 1;
    }
    proof {
        let m = entry_models(acc@);
        lemma_key_index(m, k@);
        match key_index(m, k@) {
            Some(i) => {
                assert(m[i].0 == acc@[i].0@);
            },
            None => {},
        }
    }
    None
}

/// `overlay` deep-merged into `base` (see [`deep_merge`]).
pub fn merge_values(base: ConfigValue, overlay: &ConfigValue) -> (r: ConfigValue)
    ensures
        value_model(r) == deep_merge(value_model(base), value_model(*overlay)),
    decreases overlay,
{
    match overlay {
        ConfigValue::Mapping(om) => {
            match base {
                ConfigValue::Mapping(bm) => {
                    let ghost bmm = entry_models(bm@);
                    let ghost omm = entry_models(om@);
                    let mut acc = bm;
                    let mut j: usize = 0;
                    proof {
                        lemma_entry_models(om@);
                        assert(om@.subrange(0, 0) =~= Seq::<(String, ConfigValue)>::empty());
                    }
                    while j < om.len()
                        invariant
                            *overlay == ConfigValue::Mapping(*om),
                            j <= om@.len(),
                            omm == entry_models(om@),
                            entry_models(acc@) == merge_entries(bmm, entry_models(om@.subrange(0, j as int))),
                        decreases om.len() - j,
                    {
                        let ghost acc0 = entry_models(acc@);
                        let ghost sub = om@.subrange(0, j + 1);
                        proof {
                            assert(sub.subrange(0, sub.len() - 1) =~= om@.subrange(0, j as int));
                            assert(sub[sub.len() - 1] == om@[j as int]);
                            let em = entry_models(sub);
                            assert(em.subrange(0, em.len() - 1) =~= entry_models(om@.subrange(0, j as int)));
                            assert(em[em.len() - 1] == (om@[j as int].0@, value_model(om@[j as int].1)));
                            vstd::std_specs::vec::axiom_vec_index_decreases(*om, j as int);
                            lemma_entry_models(acc@);
                        }
                        match find_key(&acc, om[j].0.as_str()) {
                            Some(idx) => {
                                proof {
                                    lemma_key_index(acc0, om@[j as int].0@);
                                }
                                let child = copy_value(&acc[idx].1);
                                proof {
                                    assert(decreases_to!(*overlay => (*overlay)->Mapping_0));
                                    assert(decreases_to!(*overlay => om@[j as int]));
                                    assert(decreases_to!(*overlay => om@[j as int].1));
                                }
                                let merged = merge_values(child, &om[j].1);
                                let ghost before = acc@;
                                acc.set(idx, (om[j].0.clone(), merged));
                                proof {
                                    lemma_key_index(acc0, om@[j as int].0@);
                                    lemma_entry_models(acc@);
                                    assert(entry_models(acc@) =~= acc0.update(
                                        idx as int,
                                        (om@[j as int].0@, deep_merge(acc0[idx as int].1, value_model(om@[j as int].1))),
                                    ));
                                }
                            },
                            None => {
                                let c = copy_value(&om[j].1);
                                acc.push((om[j].0.clone(), c));
                                proof {
                                    lemma_entry_models(acc@);
                                    assert(entry_models(acc@) =~= acc0.push((om@[j as int].0@, value_model(om@[j as int].1))));
                                }
                            },
                        }
                        j = j + 1;
                    }
                    proof {
                        assert(om@.subrange(0, j as int) =~= om@);
                    }
                    ConfigValue::Mapping(acc)
                },
                _ => copy_value(overlay),
            }
        },
        _ => copy_value(overlay),
    }
}

/// What resolution reads of the configuration.
pub struct ResolutionConfig {
    /// The settings every entity inherits.
    pub defaults: ConfigValue,
    /// Scoping profile → its settings, sorted by profile.
    pub scoping_profiles: Vec<(String, ConfigValue)>,
    pub entities: Vec<EntityConfig>,
}

/// A fully resolved entity.
#[derive(Debug)]
pub struct ResolvedEntity {
    pub code: String,
    pub name: Option<String>,
    pub country: String,
    pub functional_currency: String,
    pub scoping_profile_name: String,
    pub consolidation_method: ConsolidationMethod,
    pub ownership_percent: Option<Dec>,
    pub parent_code: Option<String>,
    pub accounting_framework: String,
    pub industry: String,
    pub process_models: Vec<String>,
    pub rows: Option<u64>,
    /// The defaults, the profile and the overrides, deep-merged.
    pub merged_config: ConfigValue,
}

/// The defaults to start from: an empty mapping for none.
pub open spec fn start_model(defaults: ValueModel) -> ValueModel {
    if defaults is Null {
        ValueModel::Mapping(Seq::empty())
    } else {
        defaults
    }
}

/// The override `k: v` merged into `m`: into its entries when `m` is a
/// mapping, else replacing it by the mapping of that one entry.
pub open spec fn merge_key(m: ValueModel, k: Seq<char>, v: ValueModel) -> ValueModel {
    match m {
        ValueModel::Mapping(bm) => ValueModel::Mapping(merge_entries(bm, seq![(k, v)])),
        _ => ValueModel::Mapping(seq![(k, v)]),
    }
}

pub open spec fn apply_overrides(m: ValueModel, ov: Seq<(Seq<char>, ValueModel)>) -> ValueModel
    decreases ov.len(),
{
    if ov.len() == 0 {
        m
    } else {
        merge_key(apply_overrides(m, ov.drop_last()), ov.last().0, ov.last().1)
    }
}

/// The defaults, then the profile, then the overrides, deep-merged.
pub open spec fn merged_model(defaults: ValueModel, profile: ValueModel, overrides: Seq<(Seq<char>, ValueModel)>) -> ValueModel {
    apply_overrides(deep_merge(start_model(defaults), profile), overrides)
}

/// The value of `key` in a mapping.
pub open spec fn lookup(m: ValueModel, key: Seq<char>) -> Option<ValueModel> {
    match m {
        ValueModel::Mapping(es) => match key_index(es, key) {
            Some(i) => Some(es[i].1),
            None => None,
        },
        _ => None,
    }
}

/// The string at `key`, if it is one.
pub open spec fn read_str_spec(m: ValueModel, key: Seq<char>) -> Option<Seq<char>> {
    match lookup(m, key) {
        Some(ValueModel::Str(s)) => Some(s),
        _ => None,
    }
}

/// The strings of a list, in order, other items skipped.
pub open spec fn strs_of(xs: Seq<ValueModel>) -> Seq<Seq<char>>
    decreases xs.len(),
{
    if xs.len() == 0 {
        Seq::empty()
    } else {
        let rest = strs_of(xs.drop_last());
        match xs.last() {
            ValueModel::Str(s) => rest.push(s),
            _ => rest,
        }
    }
}

/// The strings of the list at `key`; none when `key` holds no list.
pub open spec fn read_str_vec_spec(m: ValueModel, key: Seq<char>) -> Seq<Seq<char>> {
    match lookup(m, key) {
        Some(ValueModel::Sequence(xs)) => strs_of(xs),
        _ => Seq::empty(),
    }
}

/// The override `k: v` merged into `base` (see [`merge_key`]).
fn merge_key_value(base: ConfigValue, k: &String, v: &ConfigValue) -> (r: ConfigValue)
    ensures
        value_model(r) == merge_key(value_model(base), k@, value_model(*v)),
{
    let entry = vec![(k.clone(), copy_value(v))];
    proof {
        lemma_entry_models(entry@);
        assert(entry_models(entry@) =~= seq![(k@, value_model(*v))]);
    }
    let overlay = ConfigValue::Mapping(entry);
    merge_values(base, &overlay)
}

fn value_at<'a>(m: &'a ConfigValue, key: &str) -> (r: Option<&'a ConfigValue>)
    ensures
        match r {
            Some(x) => lookup(value_model(*m), key@) == Some(value_model(*x)),
            None => lookup(value_model(*m), key@) is None,
        },
{
    match m {
        ConfigValue::Mapping(es) => {
            proof {
                lemma_entry_models(es@);
                lemma_key_index(entry_models(es@), key@);
            }
            match find_key(es, key) {
                Some(i) => Some(&es[i].1),
                None => None,
            }
        },
        _ => None,
    }
}

/// The string at `key` of a mapping, if it is one.
pub fn read_str(m: &ConfigValue, key: &str) -> (r: Option<String>)
    ensures
        opt_view(r) == read_str_spec(value_model(*m), key@),
{
    match value_at(m, key) {
        Some(ConfigValue::Str(s)) => Some(s.clone()),
        _ => None,
    }
}

/// The strings of the list at `key` of a mapping; empty when there is
/// none.
pub fn read_str_vec(m: &ConfigValue, key: &str) -> (r: Vec<String>)
    ensures
        r@.map_values(|s: String| s@) == read_str_vec_spec(value_model(*m), key@),
{
    let mut out: Vec<String> = Vec::new();
    match value_at(m, key) {
        Some(ConfigValue::Sequence(xs)) => {
            let mut j: usize = 0;
            while j < xs.len()
                invariant
                    j <= xs@.len(),
                    out@.map_values(|s: String| s@) == strs_of(list_models(xs@.take(j as int))),
                decreases xs.len() - j,
            {
                let ghost t = xs@.take(j + 1);
                proof {
                    assert(t.subrange(0, t.len() - 1) =~= xs@.take(j as int));
                    assert(t[t.len() - 1] == xs@[j as int]);
                    assert(list_models(t) == list_models(xs@.take(j as int)).push(value_model(xs@[j as int])));
                    assert(list_models(t).drop_last() =~= list_models(xs@.take(j as int)));
                    assert(list_models(t).last() == value_model(xs@[j as int]));
                }
                let ghost before = out@;
                match &xs[j] {
                    ConfigValue::Str(s) => {
                        out.push(s.clone());
                        proof {
                            assert(out@.map_values(|s: String| s@) =~= before.map_values(|s: String| s@).push(s@));
                        }
                    },
                    _ => {},
                }
                j = j + 1;
            }
            proof {
                assert(xs@.take(j as int) =~= xs@);
            }
        },
        _ => {
            proof {
                assert(out@.map_values(|s: String| s@) =~= Seq::<Seq<char>>::empty());
            }
        },
    }
    out
}

/// The first entity with `code` is at `i`.
pub open spec fn first_with_code(es: Seq<EntityConfig>, code: Seq<char>, i: int) -> bool {
    &&& 0 <= i < es.len()
    &&& es[i].code@ == code
    &&& forall|j: int| 0 <= j < i ==> (#[trigger] es[j]).code@ != code
}

/// The position of the first entity with `code`.
pub open spec fn entity_position(es: Seq<EntityConfig>, code: Seq<char>) -> int {
    choose|i: int| first_with_code(es, code, i)
}

pub open spec fn has_entity(es: Seq<EntityConfig>, code: Seq<char>) -> bool {
    exists|i: int| 0 <= i < es.len() && (#[trigger] es[i]).code@ == code
}

/// The merged configuration of entity `e`.
pub open spec fn entity_merged(cfg: ResolutionConfig, e: EntityConfig) -> ValueModel {
    merged_model(
        value_model(cfg.defaults),
        value_model(sm_map(cfg.scoping_profiles@)[e.scoping_profile@]),
        entry_models(e.overrides@),
    )
}

/// `x` is entity `e` resolved against `merged`: its own fields; its
/// framework and industry its own, else the merged settings', else
/// `ifrs` and `manufacturing`; its process models the merged list's
/// strings.
pub open spec fn resolved_from(x: ResolvedEntity, e: EntityConfig, merged: ValueModel) -> bool {
    &&& x.code@ == e.code@
    &&& opt_view(x.name) == opt_view(e.name)
    &&& x.country@ == e.country@
    &&& x.functional_currency@ == e.functional_currency@
    &&& x.scoping_profile_name@ == e.scoping_profile@
    &&& x.consolidation_method == e.consolidation_method
    &&& x.ownership_percent == e.ownership_percent
    &&& opt_view(x.parent_code) == opt_view(e.parent_code)
    &&& x.rows == e.rows
    &&& value_model(x.merged_config) == merged
    &&& x.accounting_framework@ == match opt_view(e.accounting_framework) {
        Some(s) => s,
        None => match read_str_spec(merged, "accounting_framework"@) {
            Some(s) => s,
            None => "ifrs"@,
        },
    }
    &&& x.industry@ == match opt_view(e.industry) {
        Some(s) => s,
        None => match read_str_spec(merged, "industry"@) {
            Some(s) => s,
            None => "manufacturing"@,
        },
    }
    &&& x.process_models@.map_values(|s: String| s@) == read_str_vec_spec(merged, "process_models"@)
}

fn resolve_entity_inner(cfg: &ResolutionConfig, entity: &EntityConfig) -> (r: Result<ResolvedEntity, GroupError>)
    requires
        sm_sorted(cfg.scoping_profiles@),
    ensures
        r is Err <==> !sm_map(cfg.scoping_profiles@).contains_key(entity.scoping_profile@),
        r is Err ==> r matches Err(GroupError::Config(_)),
        r matches Ok(x) ==> resolved_from(x, *entity, entity_merged(*cfg, *entity)),
{
    let mut merged = match &cfg.defaults {
        ConfigValue::Null => ConfigValue::Mapping(Vec::new()),
        other => copy_value(other),
    };
    proof {
        assert(entry_models(Seq::<(String, ConfigValue)>::empty()) =~= Seq::<(Seq<char>, ValueModel)>::empty());
    }
    let (found, pi) = sm_find(&cfg.scoping_profiles, entity.scoping_profile.as_str());
    if !found {
        return Err(
            GroupError::Config(
                "entity ".to_string().concat(entity.code.as_str()).concat(" references unknown scoping_profile ").concat(
                    entity.scoping_profile.as_str(),
                ),
            ),
        );
    }
    proof {
        lemma_sm_at(cfg.scoping_profiles@, pi as int);
    }
    merged = merge_values(merged, &cfg.scoping_profiles[pi].1);
    let ghost layered = value_model(merged);
    let ov = &entity.overrides;
    let mut j: usize = 0;
    while j < ov.len()
        invariant
            j <= ov@.len(),
            value_model(merged) == apply_overrides(layered, entry_models(ov@.take(j as int))),
        decreases ov.len() - j,
    {
        let ghost t = ov@.take(j + 1);
        proof {
            assert(t.subrange(0, t.len() - 1) =~= ov@.take(j as int));
            assert(entry_models(t).drop_last() =~= entry_models(ov@.take(j as int)));
        }
        merged = merge_key_value(merged, &ov[j].0, &ov[j].1);
        j = j + 1;
    }
    proof {
        assert(ov@.take(j as int) =~= ov@);
    }
    let accounting_framework = match &entity.accounting_framework {
        Some(s) => s.clone(),
        None => match read_str(&merged, "accounting_framework") {
            Some(s) => s,
            None => "ifrs".to_string(),
        },
    };
    let industry = match &entity.industry {
        Some(s) => s.clone(),
        None => match read_str(&merged, "industry") {
            Some(s) => s,
            None => "manufacturing".to_string(),
        },
    };
    let process_models = read_str_vec(&merged, "process_models");
    Ok(ResolvedEntity {
        code: entity.code.clone(),
        name: clone_opt(&entity.name),
        country: entity.country.clone(),
        functional_currency: entity.functional_currency.clone(),
        scoping_profile_name: entity.scoping_profile.clone(),
        consolidation_method: entity.consolidation_method,
        ownership_percent: entity.ownership_percent,
        parent_code: clone_opt(&entity.parent_code),
        accounting_framework,
        industry,
        process_models,
        rows: entity.rows,
        merged_config: merged,
    })
}

/// Resolve the entity `code`: the first entity with that code, its
/// settings the defaults, then its scoping profile's, then its own
/// overrides, deep-merged.  `Err(Config)` exactly when no entity has the
/// code or its scoping profile is unknown.
pub fn resolve_entity(cfg: &ResolutionConfig, code: &str) -> (r: Result<ResolvedEntity, GroupError>)
    requires
        sm_sorted(cfg.scoping_profiles@),
    ensures
        r is Err <==> (!has_entity(cfg.entities@, code@) || !sm_map(cfg.scoping_profiles@).contains_key(
            cfg.entities@[entity_position(cfg.entities@, code@)].scoping_profile@,
        )),
        r is Err ==> r matches Err(GroupError::Config(_)),
        r matches Ok(x) ==> {
            let e = cfg.entities@[entity_position(cfg.entities@, code@)];
            resolved_from(x, e, entity_merged(*cfg, e))
        },
{
    let mut i: usize = 0;
    while i < cfg.entities.len()
        invariant
            i <= cfg.entities@.len(),
            sm_sorted(cfg.scoping_profiles@),
            forall|j: int| 0 <= j < i ==> (#[trigger] cfg.entities@[j]).code@ != code@,
        decreases cfg.entities.len() - i,
    {
        if str_eq(cfg.entities[i].code.as_str(), code) {
            proof {
                assert(first_with_code(cfg.entities@, code@, i as int));
                let p = entity_position(cfg.entities@, code@);
                assert(first_with_code(cfg.entities@, code@, p));
                if p < i {
                    assert(cfg.entities@[p].code@ != code@);
                } else if p > i {
                    assert(cfg.entities@[i as int].code@ != code@);
                }
                assert(has_entity(cfg.entities@, code@));
            }
            return resolve_entity_inner(cfg, &cfg.entities[i]);
        }
        i = i + 1;
    }
    proof {
        assert(!has_entity(cfg.entities@, code@));
    }
    Err(GroupError::Config("entity ".to_string().concat(code).concat(" not found")))
}

} // verus!
