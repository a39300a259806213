use datasynth_group::config::ConsolidationMethod;
use datasynth_group::dec::Dec;
use datasynth_group::errors::GroupError;
use datasynth_group::manifest::builder::HyperinflationStatus;
use datasynth_group::manifest::expansion::{
    expand_ownership, EntityConfig, EntityDraw, EntitySource, GeneratedEntityBlock,
};

fn explicit(code: &str, country: &str, ccy: &str) -> EntityConfig {
    EntityConfig {
        code: code.to_string(),
        name: Some(format!("{code} Ltd")),
        country: country.to_string(),
        functional_currency: ccy.to_string(),
        scoping_profile: "significant".to_string(),
        consolidation_method: ConsolidationMethod::Full,
        ownership_percent: Some(Dec::new(8, 1).unwrap()),
        parent_code: Some("PARENT".to_string()),
        accounting_framework: None,
        industry: Some("retail".to_string()),
        rows: Some(500),
        hyperinflation_status: HyperinflationStatus::NotHyperinflationary,
        overrides: Vec::new(),
    }
}

fn block(prefix: &str, count: u32, countries: &[&str], ccy: Option<&str>) -> GeneratedEntityBlock {
    GeneratedEntityBlock {
        count,
        code_prefix: prefix.to_string(),
        country: countries.iter().map(|c| c.to_string()).collect(),
        functional_currency: ccy.map(|c| c.to_string()),
        scoping_profile: "consolidation_only".to_string(),
        consolidation_method: ConsolidationMethod::Full,
        parent_code: Some("PARENT".to_string()),
        accounting_framework: Some("ifrs".to_string()),
        industry: None,
    }
}

fn draw(i: usize) -> EntityDraw {
    EntityDraw { country_index: i, ownership_percent: None }
}

#[test]
fn explicit_entities_come_first_then_generated_blocks() {
    let entities = vec![explicit("PARENT", "US", "USD"), explicit("SUB1", "GB", "GBP")];
    let blocks = vec![block("DE_GEN_", 2, &["DE", "JP"], None), block("X", 1, &["ZZ"], Some("CHF"))];
    let draws = vec![
        vec![draw(0), EntityDraw { country_index: 1, ownership_percent: Some(Dec::new(6543, 4).unwrap()) }],
        vec![draw(0)],
    ];
    let v = expand_ownership(&entities, &blocks, &draws).unwrap();
    let codes: Vec<&str> = v.iter().map(|e| e.code.as_str()).collect();
    assert_eq!(codes, vec!["PARENT", "SUB1", "DE_GEN_0000001", "DE_GEN_0000002", "X0000001"]);
    assert_eq!(v[0].source, EntitySource::Explicit);
    assert_eq!(v[1].generated_block_index, None);
    assert_eq!(v[1].rows, Some(500));
    assert_eq!(v[1].name.as_deref(), Some("SUB1 Ltd"));
    assert_eq!(v[2].source, EntitySource::Generated);
    assert_eq!(v[2].generated_block_index, Some(0));
    assert_eq!(v[2].country, "DE");
    assert_eq!(v[2].functional_currency, "EUR");
    assert_eq!(v[2].name, None);
    assert_eq!(v[2].rows, None);
    assert_eq!(v[3].country, "JP");
    assert_eq!(v[3].functional_currency, "JPY");
    assert_eq!(v[3].ownership_percent.unwrap().mantissa(), 6543);
    assert_eq!(v[4].generated_block_index, Some(1));
    // An unmapped country keeps the block's currency when it gives one.
    assert_eq!(v[4].functional_currency, "CHF");
    assert_eq!(v[4].scoping_profile, "consolidation_only");
}

#[test]
fn unmapped_country_falls_back_to_its_own_code() {
    let blocks = vec![block("Q", 1, &["ZZ"], None)];
    let v = expand_ownership(&[], &blocks, &vec![vec![draw(0)]]).unwrap();
    assert_eq!(v[0].code, "Q0000001");
    assert_eq!(v[0].functional_currency, "ZZ");
}

#[test]
fn duplicate_explicit_code_is_a_config_error() {
    let entities = vec![explicit("A", "US", "USD"), explicit("A", "GB", "GBP")];
    match expand_ownership(&entities, &[], &vec![]) {
        Err(GroupError::Config(m)) => assert!(m.contains("appears twice") && m.contains('A')),
        other => panic!("unexpected {:?}", other.map(|v| v.len())),
    }
}

#[test]
fn generated_code_colliding_with_explicit_is_a_config_error() {
    let entities = vec![explicit("GEN0000002", "US", "USD")];
    let blocks = vec![block("GEN", 3, &["US"], None)];
    let draws = vec![vec![draw(0), draw(0), draw(0)]];
    match expand_ownership(&entities, &blocks, &draws) {
        Err(GroupError::Config(m)) => assert!(m.contains("GEN0000002") && m.contains("collides")),
        other => panic!("unexpected {:?}", other.map(|v| v.len())),
    }
}

#[test]
fn block_without_countries_is_a_config_error_only_when_it_generates() {
    let blocks = vec![block("E", 1, &[], None)];
    match expand_ownership(&[], &blocks, &vec![vec![draw(0)]]) {
        Err(GroupError::Config(m)) => assert!(m.contains("generated block 0") && m.contains("empty country list")),
        other => panic!("unexpected {:?}", other.map(|v| v.len())),
    }
    let empty_block = vec![block("E", 0, &[], None)];
    assert_eq!(expand_ownership(&[], &empty_block, &vec![vec![]]).unwrap().len(), 0);
}
