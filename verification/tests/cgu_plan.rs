use datasynth_group::config::{CguConfig, CguDefinitionEntry, CguGoodwillAllocationEntry, ConsolidationMethod};
use datasynth_group::date::Date;
use datasynth_group::dec::Dec;
use datasynth_group::manifest::builder::HyperinflationStatus;
use datasynth_group::manifest::cgu_plan::build_cgu_plan;
use datasynth_group::manifest::expansion::{EntitySource, ExpandedEntity};

fn d(m: i128, s: u32) -> Dec {
    Dec::new(m, s).unwrap()
}

fn entity(code: &str) -> ExpandedEntity {
    ExpandedEntity {
        code: code.to_string(),
        name: None,
        country: "DE".to_string(),
        functional_currency: "EUR".to_string(),
        scoping_profile: "significant".to_string(),
        consolidation_method: ConsolidationMethod::Full,
        ownership_percent: Some(d(80, 2)),
        parent_code: Some("PARENT".to_string()),
        accounting_framework: None,
        industry: None,
        hyperinflation_status: HyperinflationStatus::NotHyperinflationary,
        source: EntitySource::Explicit,
        generated_block_index: None,
        rows: None,
    }
}

fn date() -> Date {
    Date { year: 2023, month: 6, day: 30 }
}

fn definition(id: &str, name: &str, members: Vec<&str>, segment: Option<&str>) -> CguDefinitionEntry {
    CguDefinitionEntry {
        cgu_id: id.to_string(),
        name: name.to_string(),
        member_entity_codes: members.into_iter().map(|m| m.to_string()).collect(),
        segment_code: segment.map(|s| s.to_string()),
    }
}

fn allocation(cgu: &str, bc: &str, amount: Dec) -> CguGoodwillAllocationEntry {
    CguGoodwillAllocationEntry {
        cgu_id: cgu.to_string(),
        business_combination_id: bc.to_string(),
        goodwill_amount: amount,
        allocation_date: date(),
    }
}

#[test]
fn empty_config_produces_empty_plan() {
    let cfg = CguConfig { cgus: vec![], goodwill_allocations: vec![] };
    let plan = build_cgu_plan(&cfg, &[]).unwrap();
    assert!(plan.cgus.is_empty());
    assert!(plan.goodwill_allocations.is_empty());
}

#[test]
fn happy_path_lifts_definitions_and_allocations() {
    let cfg = CguConfig {
        cgus: vec![
            definition("CGU_EMEA", "EMEA", vec!["E1", "E2"], Some("CONS")),
            definition("CGU_AMER", "Americas", vec!["E3"], None),
        ],
        goodwill_allocations: vec![allocation("CGU_EMEA", "BC_2023_001", d(150000, 0))],
    };
    let entities = vec![entity("E1"), entity("E2"), entity("E3")];
    let plan = build_cgu_plan(&cfg, &entities).unwrap();
    assert_eq!(plan.cgus.len(), 2);
    assert_eq!(plan.cgus[0].cgu_id, "CGU_AMER");
    assert_eq!(plan.cgus[1].cgu_id, "CGU_EMEA");
    assert_eq!(plan.cgus[1].segment_code.as_deref(), Some("CONS"));
    assert_eq!(plan.goodwill_allocations.len(), 1);
    assert_eq!(plan.goodwill_allocations[0].goodwill_amount, d(150000, 0));
}

#[test]
fn duplicate_cgu_id_rejected() {
    let cfg = CguConfig {
        cgus: vec![definition("DUP", "first", vec!["E1"], None), definition("DUP", "second", vec!["E2"], None)],
        goodwill_allocations: vec![],
    };
    let entities = vec![entity("E1"), entity("E2")];
    let err = build_cgu_plan(&cfg, &entities).unwrap_err();
    assert!(err.message().contains("duplicate cgu_id"));
}

#[test]
fn empty_members_rejected() {
    let cfg = CguConfig { cgus: vec![definition("CGU_X", "x", vec![], None)], goodwill_allocations: vec![] };
    let err = build_cgu_plan(&cfg, &[]).unwrap_err();
    assert!(err.message().contains("no member_entity_codes"));
}

#[test]
fn unknown_member_entity_rejected() {
    let cfg = CguConfig { cgus: vec![definition("CGU_X", "x", vec!["NOPE"], None)], goodwill_allocations: vec![] };
    let err = build_cgu_plan(&cfg, &[entity("E1")]).unwrap_err();
    assert!(err.message().contains("not present in the ownership graph"));
}

#[test]
fn allocation_to_undefined_cgu_rejected() {
    let cfg = CguConfig {
        cgus: vec![definition("DEFINED", "n", vec!["E1"], None)],
        goodwill_allocations: vec![allocation("GHOST", "BC_X", d(100, 0))],
    };
    let err = build_cgu_plan(&cfg, &[entity("E1")]).unwrap_err();
    assert!(err.message().contains("no matching CGU definition"));
}

#[test]
fn negative_goodwill_rejected() {
    let cfg = CguConfig {
        cgus: vec![definition("CGU_X", "x", vec!["E1"], None)],
        goodwill_allocations: vec![allocation("CGU_X", "BC_X", d(-1, 0))],
    };
    let err = build_cgu_plan(&cfg, &[entity("E1")]).unwrap_err();
    assert!(err.message().contains("negative goodwill_amount"));
}

#[test]
fn allocations_sort_deterministically_by_cgu_then_bc() {
    let cfg = CguConfig {
        cgus: vec![definition("CGU_X", "x", vec!["E1"], None)],
        goodwill_allocations: vec![allocation("CGU_X", "BC_002", d(200, 0)), allocation("CGU_X", "BC_001", d(100, 0))],
    };
    let plan = build_cgu_plan(&cfg, &[entity("E1")]).unwrap();
    assert_eq!(plan.goodwill_allocations[0].business_combination_id, "BC_001");
    assert_eq!(plan.goodwill_allocations[1].business_combination_id, "BC_002");
}
