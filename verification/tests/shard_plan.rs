use datasynth_group::config::ConsolidationMethod;
use datasynth_group::manifest::builder::HyperinflationStatus;
use datasynth_group::manifest::expansion::{EntitySource, ExpandedEntity};
use datasynth_group::manifest::shard_plan::build_shard_plan;

fn entity(code: &str, profile: &str, rows: Option<u64>) -> ExpandedEntity {
    ExpandedEntity {
        code: code.to_string(),
        name: None,
        country: "DE".to_string(),
        functional_currency: "EUR".to_string(),
        scoping_profile: profile.to_string(),
        consolidation_method: ConsolidationMethod::Full,
        ownership_percent: None,
        parent_code: None,
        accounting_framework: None,
        industry: None,
        hyperinflation_status: HyperinflationStatus::NotHyperinflationary,
        source: EntitySource::Explicit,
        generated_block_index: None,
        rows,
    }
}

#[test]
fn shards_group_by_profile_sort_by_code_and_batch_greedily() {
    let entities = vec![
        entity("SIG_B", "significant", Some(6_000_000_000)),
        entity("MAT_1", "material", None),
        entity("SIG_A", "significant", Some(6_000_000_000)),
        entity("SIG_C", "significant", Some(3_000_000_000)),
        entity("X_1", "extra_small", None),
    ];
    let budgets = vec![("material".to_string(), 2_000u64)];
    let plan = build_shard_plan(&entities, &budgets).unwrap();
    let ids: Vec<&str> = plan.shards.iter().map(|s| s.shard_id.as_str()).collect();
    assert_eq!(ids, vec!["S_EXT_0001", "S_MAT_0001", "S_SIG_0001", "S_SIG_0002"]);
    assert_eq!(plan.shards[0].entity_codes, vec!["X_1".to_string()]);
    assert_eq!(plan.shards[0].estimated_rows, 1_000_000);
    assert_eq!(plan.shards[0].estimated_archive_size_mb, 800);
    assert_eq!(plan.shards[1].estimated_rows, 2_000);
    assert_eq!(plan.shards[1].estimated_archive_size_mb, 1);
    assert_eq!(plan.shards[2].entity_codes, vec!["SIG_A".to_string()]);
    assert_eq!(plan.shards[3].entity_codes, vec!["SIG_B".to_string(), "SIG_C".to_string()]);
    assert_eq!(plan.shards[3].estimated_rows, 9_000_000_000);
    assert_eq!(plan.shards[3].estimated_archive_size_mb, 7_200_000);
}

#[test]
fn an_entity_over_the_cap_gets_a_shard_of_its_own() {
    let entities = vec![entity("A", "significant", Some(20_000_000_000)), entity("B", "significant", Some(1))];
    let plan = build_shard_plan(&entities, &vec![]).unwrap();
    assert_eq!(plan.shards.len(), 2);
    assert_eq!(plan.shards[0].estimated_rows, 20_000_000_000);
    assert_eq!(plan.shards[1].entity_codes, vec!["B".to_string()]);
}
