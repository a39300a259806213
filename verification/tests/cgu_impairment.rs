use datasynth_group::aggregate::cgu_impairment::{run_cgu_impairment_tests, CguTestInputs};
use datasynth_group::date::Date;
use datasynth_group::dec::Dec;
use datasynth_group::manifest::cgu_plan::{CashGeneratingUnit, CguPlan, GoodwillAllocation};

fn d(m: i128, s: u32) -> Dec {
    Dec::new(m, s).unwrap()
}

fn date() -> Date {
    Date { year: 2024, month: 12, day: 31 }
}

fn unit(id: &str, members: Vec<String>) -> CashGeneratingUnit {
    CashGeneratingUnit {
        cgu_id: id.to_string(),
        name: format!("name-{id}"),
        member_entity_codes: members,
        segment_code: None,
    }
}

fn plan_with(cgus: Vec<&str>, allocs: Vec<(&str, &str, Dec)>) -> CguPlan {
    CguPlan {
        cgus: cgus.into_iter().map(|id| unit(id, vec!["E1".to_string()])).collect(),
        goodwill_allocations: allocs
            .into_iter()
            .map(|(cgu_id, bc_id, amt)| GoodwillAllocation {
                cgu_id: cgu_id.to_string(),
                business_combination_id: bc_id.to_string(),
                goodwill_amount: amt,
                allocation_date: date(),
            })
            .collect(),
    }
}

fn ti(cgu_id: &str, oc: Dec, fvlc: Dec, viu: Dec) -> CguTestInputs {
    CguTestInputs {
        cgu_id: cgu_id.to_string(),
        other_carrying: Some(oc),
        fair_value_less_costs: Some(fvlc),
        value_in_use: Some(viu),
        recoverable_ratio: None,
    }
}

#[test]
fn other_carrying_derived_from_member_entity_net_assets() {
    let plan = CguPlan {
        cgus: vec![unit("CGU_X", vec!["E1".to_string(), "E2".to_string()])],
        goodwill_allocations: vec![GoodwillAllocation {
            cgu_id: "CGU_X".to_string(),
            business_combination_id: "BC".to_string(),
            goodwill_amount: d(100, 0),
            allocation_date: date(),
        }],
    };
    let net_assets = vec![("E1".to_string(), d(900, 0)), ("E2".to_string(), d(300, 0))];
    let inputs = vec![CguTestInputs {
        cgu_id: "CGU_X".to_string(),
        other_carrying: None,
        fair_value_less_costs: Some(d(2000, 0)),
        value_in_use: Some(d(0, 0)),
        recoverable_ratio: None,
    }];
    let results = run_cgu_impairment_tests(&plan, &inputs, &net_assets, date(), "EUR").unwrap();
    assert_eq!(results[0].carrying_total, d(1200, 0));
    assert_eq!(results[0].impairment_loss_total, Dec::zero());
}

#[test]
fn recoverable_ratio_is_a_coherent_multiple_of_carrying() {
    let plan = plan_with(vec!["CGU_X"], vec![("CGU_X", "BC", d(100, 0))]);
    let inputs = vec![CguTestInputs {
        cgu_id: "CGU_X".to_string(),
        other_carrying: Some(d(900, 0)),
        fair_value_less_costs: None,
        value_in_use: None,
        recoverable_ratio: Some(d(9, 1)),
    }];
    let results = run_cgu_impairment_tests(&plan, &inputs, &Vec::new(), date(), "EUR").unwrap();
    assert_eq!(results[0].carrying_total, d(1000, 0));
    assert_eq!(results[0].recoverable_amount, d(900, 0));
    assert_eq!(results[0].impairment_loss_total, d(100, 0));
    assert_eq!(results[0].impairment_loss_to_goodwill, d(100, 0));
}

#[test]
fn empty_inputs_returns_empty_results_no_error() {
    let plan = plan_with(vec!["CGU_X"], vec![]);
    let results = run_cgu_impairment_tests(&plan, &[], &Vec::new(), date(), "EUR").unwrap();
    assert!(results.is_empty());
}

#[test]
fn happy_path_recoverable_no_impairment() {
    let plan = plan_with(vec!["CGU_X"], vec![("CGU_X", "BC_001", d(100, 0))]);
    let inputs = vec![ti("CGU_X", d(500, 0), d(800, 0), d(700, 0))];
    let results = run_cgu_impairment_tests(&plan, &inputs, &Vec::new(), date(), "EUR").unwrap();
    assert_eq!(results.len(), 1);
    assert_eq!(results[0].cgu_id, "CGU_X");
    assert_eq!(results[0].carrying_total, d(600, 0));
    assert_eq!(results[0].recoverable_amount, d(800, 0));
    assert_eq!(results[0].impairment_loss_total, Dec::zero());
    assert_eq!(results[0].impairment_loss_to_goodwill, Dec::zero());
    assert_eq!(results[0].impairment_loss_to_other_assets, Dec::zero());
}

#[test]
fn impairment_loss_first_allocated_to_goodwill_per_ias36_para104() {
    let plan = plan_with(vec!["CGU_X"], vec![("CGU_X", "BC_001", d(100, 0))]);
    let inputs = vec![ti("CGU_X", d(500, 0), d(400, 0), d(350, 0))];
    let results = run_cgu_impairment_tests(&plan, &inputs, &Vec::new(), date(), "EUR").unwrap();
    assert_eq!(results[0].impairment_loss_total, d(200, 0));
    assert_eq!(results[0].impairment_loss_to_goodwill, d(100, 0));
    assert_eq!(results[0].impairment_loss_to_other_assets, d(100, 0));
}

#[test]
fn multiple_allocations_to_same_cgu_sum() {
    let plan = plan_with(
        vec!["CGU_X"],
        vec![("CGU_X", "BC_001", d(50, 0)), ("CGU_X", "BC_002", d(30, 0)), ("CGU_X", "BC_003", d(20, 0))],
    );
    let inputs = vec![ti("CGU_X", d(0, 0), d(60, 0), d(0, 0))];
    let results = run_cgu_impairment_tests(&plan, &inputs, &Vec::new(), date(), "EUR").unwrap();
    assert_eq!(results[0].carrying_total, d(100, 0));
    assert_eq!(results[0].impairment_loss_total, d(40, 0));
    assert_eq!(results[0].impairment_loss_to_goodwill, d(40, 0));
    assert_eq!(results[0].impairment_loss_to_other_assets, Dec::zero());
}

#[test]
fn cgu_with_no_goodwill_allocation_runs_with_zero_goodwill() {
    let plan = plan_with(vec!["CGU_NO_GW"], vec![]);
    let inputs = vec![ti("CGU_NO_GW", d(1000, 0), d(800, 0), d(750, 0))];
    let results = run_cgu_impairment_tests(&plan, &inputs, &Vec::new(), date(), "EUR").unwrap();
    assert_eq!(results[0].carrying_total, d(1000, 0));
    assert_eq!(results[0].impairment_loss_total, d(200, 0));
    assert_eq!(results[0].impairment_loss_to_goodwill, Dec::zero());
    assert_eq!(results[0].impairment_loss_to_other_assets, d(200, 0));
}

#[test]
fn unknown_cgu_id_in_inputs_rejected() {
    let plan = plan_with(vec!["DEFINED"], vec![]);
    let inputs = vec![ti("GHOST", d(0, 0), d(0, 0), d(0, 0))];
    let err = run_cgu_impairment_tests(&plan, &inputs, &Vec::new(), date(), "EUR").unwrap_err();
    assert!(err.message().contains("no matching definition"));
}

#[test]
fn negative_input_rejected() {
    let plan = plan_with(vec!["CGU_X"], vec![]);
    let inputs = vec![ti("CGU_X", d(-1, 0), d(0, 0), d(0, 0))];
    let err = run_cgu_impairment_tests(&plan, &inputs, &Vec::new(), date(), "EUR").unwrap_err();
    assert!(err.message().contains("negative other_carrying"));
}

#[test]
fn results_sorted_by_cgu_id_for_determinism() {
    let plan = plan_with(vec!["CGU_C", "CGU_A", "CGU_B"], vec![]);
    let inputs = vec![
        ti("CGU_C", d(0, 0), d(100, 0), d(0, 0)),
        ti("CGU_A", d(0, 0), d(100, 0), d(0, 0)),
        ti("CGU_B", d(0, 0), d(100, 0), d(0, 0)),
    ];
    let results = run_cgu_impairment_tests(&plan, &inputs, &Vec::new(), date(), "EUR").unwrap();
    let ids: Vec<&str> = results.iter().map(|r| r.cgu_id.as_str()).collect();
    assert_eq!(ids, vec!["CGU_A", "CGU_B", "CGU_C"]);
}
