use datasynth_group::config::ConsolidationMethod;
use datasynth_group::errors::GroupError;
use datasynth_group::manifest::builder::HyperinflationStatus;
use datasynth_group::manifest::expansion::EntityConfig;
use datasynth_group::resolve::{merge_values, resolve_entity, ConfigValue, ResolutionConfig};

fn s(x: &str) -> ConfigValue {
    ConfigValue::Str(x.to_string())
}

fn n(x: &str) -> ConfigValue {
    ConfigValue::Number(x.to_string())
}

fn map(entries: Vec<(&str, ConfigValue)>) -> ConfigValue {
    ConfigValue::Mapping(entries.into_iter().map(|(k, v)| (k.to_string(), v)).collect())
}

fn keys(v: &ConfigValue) -> Vec<String> {
    match v {
        ConfigValue::Mapping(es) => es.iter().map(|(k, _)| k.clone()).collect(),
        _ => panic!("not a mapping"),
    }
}

fn get<'a>(v: &'a ConfigValue, key: &str) -> &'a ConfigValue {
    match v {
        ConfigValue::Mapping(es) => &es.iter().find(|(k, _)| k == key).expect("key").1,
        _ => panic!("not a mapping"),
    }
}

fn text(v: &ConfigValue) -> &str {
    match v {
        ConfigValue::Str(x) | ConfigValue::Number(x) => x.as_str(),
        _ => panic!("not a scalar"),
    }
}

fn entity(code: &str, profile: &str, overrides: Vec<(&str, ConfigValue)>) -> EntityConfig {
    EntityConfig {
        code: code.to_string(),
        name: None,
        country: "DE".to_string(),
        functional_currency: "EUR".to_string(),
        scoping_profile: profile.to_string(),
        consolidation_method: ConsolidationMethod::Full,
        ownership_percent: None,
        parent_code: Some("P".to_string()),
        accounting_framework: None,
        industry: None,
        rows: Some(7),
        hyperinflation_status: HyperinflationStatus::NotHyperinflationary,
        overrides: overrides.into_iter().map(|(k, v)| (k.to_string(), v)).collect(),
    }
}

fn config() -> ResolutionConfig {
    ResolutionConfig {
        defaults: map(vec![
            ("accounting_framework", s("us_gaap")),
            ("nested", map(vec![("a", n("1")), ("b", n("2"))])),
        ]),
        scoping_profiles: vec![
            ("material".to_string(), ConfigValue::Null),
            (
                "significant".to_string(),
                map(vec![
                    ("nested", map(vec![("b", n("3")), ("c", n("4"))])),
                    ("process_models", ConfigValue::Sequence(vec![s("p2p"), n("5"), s("o2c")])),
                ]),
            ),
        ],
        entities: vec![
            entity("DE01", "significant", vec![("industry", s("retail")), ("nested", map(vec![("a", n("9"))]))]),
            entity("DE02", "unknown", vec![]),
            entity("DE03", "material", vec![("extra", s("x"))]),
        ],
    }
}

#[test]
fn defaults_then_profile_then_overrides() {
    let r = resolve_entity(&config(), "DE01").unwrap();
    assert_eq!(r.code, "DE01");
    assert_eq!(r.scoping_profile_name, "significant");
    assert_eq!(r.rows, Some(7));
    assert_eq!(r.accounting_framework, "us_gaap");
    assert_eq!(r.industry, "retail");
    assert_eq!(r.process_models, vec!["p2p".to_string(), "o2c".to_string()]);
    let nested = get(&r.merged_config, "nested");
    assert_eq!(keys(nested), vec!["a", "b", "c"]);
    assert_eq!(text(get(nested, "a")), "9");
    assert_eq!(text(get(nested, "b")), "3");
    assert_eq!(text(get(nested, "c")), "4");
    assert_eq!(keys(&r.merged_config), vec!["accounting_framework", "nested", "process_models", "industry"]);
}

#[test]
fn scalar_profile_replaces_and_an_override_makes_a_new_mapping() {
    let r = resolve_entity(&config(), "DE03").unwrap();
    // The profile's null replaces the defaults; the override then starts
    // a mapping of its own, so nothing names a framework or industry.
    assert_eq!(keys(&r.merged_config), vec!["extra"]);
    assert_eq!(r.accounting_framework, "ifrs");
    assert_eq!(r.industry, "manufacturing");
    assert!(r.process_models.is_empty());
}

#[test]
fn unknown_entity_or_profile_is_a_config_error() {
    match resolve_entity(&config(), "NOPE") {
        Err(GroupError::Config(m)) => assert_eq!(m, "entity NOPE not found"),
        _ => panic!("unknown entity must be refused"),
    }
    match resolve_entity(&config(), "DE02") {
        Err(GroupError::Config(m)) => assert_eq!(m, "entity DE02 references unknown scoping_profile unknown"),
        _ => panic!("unknown profile must be refused"),
    }
}

#[test]
fn deep_merge_replaces_lists_and_scalars() {
    let base = map(vec![("l", ConfigValue::Sequence(vec![n("1"), n("2")])), ("k", s("old"))]);
    let overlay = map(vec![("l", ConfigValue::Sequence(vec![n("3")])), ("k", ConfigValue::Bool(true))]);
    let m = merge_values(base, &overlay);
    match get(&m, "l") {
        ConfigValue::Sequence(xs) => assert_eq!(xs.len(), 1),
        _ => panic!("list expected"),
    }
    assert!(matches!(get(&m, "k"), ConfigValue::Bool(true)));
}
