use datasynth_group::aggregate::coverage_report::CoverageReport;
use datasynth_group::aggregate::fs::notes::{build_notes_to_consolidated_fs, FrameworkStandards, NotesInputs};
use datasynth_group::aggregate::ic_matcher::UnmatchedReason;
use datasynth_group::aggregate::je_network::csv_escape;
use datasynth_group::aggregate::nci::NciRollforward;
use datasynth_group::aggregate::translation::cta::CtaRollforward;
use datasynth_group::config::{
    ConsolidationMethod, FxPolicyConfig, FxRateBasis, IcMatchingConfig, IcMatchingStrategy, OutputLayout,
    OutputLayoutConfig, PeriodConfig, PeriodLength,
};
use datasynth_group::date::Date;
use datasynth_group::dec::{dec_to_str, Dec};
use datasynth_group::errors::GroupError;
use datasynth_group::manifest::audit_plan::AuditEngagementPlan;
use datasynth_group::manifest::builder::{
    compute_period_pub, GroupManifest, HyperinflationStatus, ManifestEntity, ManifestPeriod, OwnershipGraphSection,
};
use datasynth_group::manifest::coa_master::{build_coa_master, defaults_complexity, ChartOfAccountsMaster, CoaComplexity};
use datasynth_group::manifest::expansion::{EntitySource, ExpandedEntity};
use datasynth_group::manifest::fx_master::FxRateMaster;
use datasynth_group::manifest::shard_plan::ShardPlan;
use datasynth_group::manifest::tax_plan::TaxGroupPlan;

fn d(m: i128, s: u32) -> Dec {
    Dec::new(m, s).unwrap()
}

fn ymd(year: i32, month: u32, day: u32) -> Date {
    Date { year, month, day }
}

fn entity(code: &str, country: &str, method: ConsolidationMethod) -> ManifestEntity {
    ManifestEntity {
        code: code.to_string(),
        name: None,
        country: country.to_string(),
        functional_currency: "CHF".to_string(),
        scoping_profile: "significant".to_string(),
        consolidation_method: method,
        ownership_percent: None,
        parent_code: None,
        accounting_framework: None,
        industry: None,
        hyperinflation_status: HyperinflationStatus::NotHyperinflationary,
        entity_seed: "00".to_string(),
        shard_id: "S".to_string(),
    }
}

fn manifest(entities: Vec<ManifestEntity>) -> GroupManifest {
    GroupManifest {
        schema_version: "1.0".to_string(),
        group_id: "GRP".to_string(),
        group_seed: 1,
        presentation_currency: "CHF".to_string(),
        period: ManifestPeriod { start: ymd(2024, 1, 1), end: ymd(2024, 12, 31), length: PeriodLength::Annual },
        manifest_seed: String::new(),
        aggregate_seed: String::new(),
        ownership_graph: OwnershipGraphSection { parent_entity_code: "P".to_string(), entities },
        chart_of_accounts_master: ChartOfAccountsMaster {
            primary_framework: "ifrs".to_string(),
            frameworks: Vec::new(),
            coa_id: "C".to_string(),
        },
        fx_rate_master: FxRateMaster {
            base_currency: "CHF".to_string(),
            policy: FxPolicyConfig {
                balance_sheet: FxRateBasis::Closing,
                income_statement: FxRateBasis::Average,
                equity: FxRateBasis::Historical,
            },
            rates: Vec::new(),
            closing_by_pair: Vec::new(),
            average_by_pair: Vec::new(),
        },
        ic_relationships: Vec::new(),
        audit_engagement_plan: AuditEngagementPlan {
            engagement_id: String::new(),
            lead_auditor: String::new(),
            framework: String::new(),
            fsm_blueprint: String::new(),
            group_materiality: Dec::zero(),
            performance_materiality: Dec::zero(),
            clearly_trivial: Dec::zero(),
            component_materiality_allocations: Vec::new(),
            component_auditors: Vec::new(),
        },
        tax_group_plan: TaxGroupPlan { pillar_two: None, cbc_report: None, transfer_pricing: None },
        shard_plan: ShardPlan { shards: Vec::new() },
        output: OutputLayoutConfig { layout: OutputLayout::PerEntitySubtree, shared_masters_at_root: true, compression: None },
        matching: IcMatchingConfig { strategy: IcMatchingStrategy::ManifestDriven, tolerance_percent: Dec::zero() },
    }
}

fn ifrs() -> FrameworkStandards {
    FrameworkStandards {
        name: "IFRS".to_string(),
        revenue: "IFRS 15".to_string(),
        leases: "IFRS 16".to_string(),
        fair_value: "IFRS 13".to_string(),
        impairment: "IAS 36".to_string(),
    }
}

fn coverage() -> CoverageReport {
    CoverageReport {
        total_pairs_planned: 4,
        matched: 3,
        unmatched_by_reason: vec![
            (UnmatchedReason::MissingBuyerSide, 1),
            (UnmatchedReason::MissingSellerSide, 0),
            (UnmatchedReason::AmountDriftAboveTolerance, 0),
        ],
        unmatched_sample: Vec::new(),
    }
}

#[test]
fn notes_are_eight_numbered_templates() {
    let m = manifest(vec![
        entity("P", "CH", ConsolidationMethod::Parent),
        entity("DE1", "DE", ConsolidationMethod::Full),
        entity("DE2", "DE", ConsolidationMethod::EquityMethod),
    ]);
    let fw = ifrs();
    let cov = coverage();
    let nci = vec![NciRollforward {
        entity_code: "DE1".to_string(),
        parent_entity_code: "P".to_string(),
        ownership_percent: d(80, 2),
        nci_percent: d(20, 2),
        opening_nci: d(100, 0),
        nci_share_of_profit: d(2000, 2),
        nci_share_of_oci: Dec::zero(),
        nci_dividends: d(5, 0),
        equity_transaction_adjustments: Dec::zero(),
        pl_remeasurement_gain_or_loss: Dec::zero(),
        closing_nci: d(115, 0),
        period_end: ymd(2024, 12, 31),
        currency: "CHF".to_string(),
    }];
    let inputs = NotesInputs {
        manifest: &m,
        framework: &fw,
        ic_coverage: &cov,
        ic_coverage_percent: "75.00".to_string(),
        nci_rollforwards: &nci,
        cta_rollforwards: &[],
        equity_method_investments: &[],
    };
    let notes = build_notes_to_consolidated_fs(&inputs, ymd(2024, 12, 31));
    assert_eq!(notes.group_id, "GRP");
    assert_eq!(notes.framework, "IFRS");
    assert_eq!(notes.notes.len(), 8);
    for (i, n) in notes.notes.iter().enumerate() {
        assert_eq!(n.note_number as usize, i + 1);
    }
    assert_eq!(notes.notes[0].title, "Significant accounting policies");
    assert_eq!(
        notes.notes[0].body,
        "These consolidated financial statements have been prepared in accordance with IFRS. Key standards applied: revenue recognition under IFRS 15, lease accounting under IFRS 16, fair value measurement under IFRS 13, and impairment under IAS 36. The financial statements are presented in CHF."
    );
    assert!(notes.notes[1].body.contains("Fully-consolidated entities (2): P, DE1. Equity-method investees (1): DE2."));
    assert_eq!(
        notes.notes[2].body,
        "Out of 4 intercompany transaction pairs planned, 3 were matched and eliminated on consolidation (coverage 75.00%). Unmatched residuals were retained with full pair-level diagnostics."
    );
    assert_eq!(
        notes.notes[3].body,
        "Non-controlling interest by subsidiary (opening, share of profit, dividends, closing):\n- DE1: NCI 0.20, opening 100, share of profit 20.00, dividends 5, closing 115 CHF"
    );
    assert_eq!(notes.notes[3].body.lines().count(), 2);
    assert!(notes.notes[3].body.lines().nth(1).unwrap().starts_with("- DE1:"));
    assert_eq!(
        notes.notes[4].body,
        "All entities report in the group presentation currency; no translation adjustment was required for the period."
    );
    assert!(notes.notes[5].body.contains("The group consolidates 3 entities across 2 countries.\n\n"));
    assert!(notes.notes[5].body.contains("  - CH: 1 entity (P)\n  - DE: 2 entities (DE1, DE2)\n"));
    assert_eq!(notes.notes[6].body, "No material subsequent events identified.");
    assert_eq!(notes.notes[7].title, "Related parties");
}

#[test]
fn notes_with_cta_and_no_entities() {
    let m = manifest(vec![]);
    let fw = ifrs();
    let cov = coverage();
    let cta = vec![CtaRollforward {
        entity_code: "US1".to_string(),
        functional_currency: "USD".to_string(),
        presentation_currency: "CHF".to_string(),
        opening_cta: d(-5, 0),
        period_cta: d(125, 1),
        closing_cta: d(75, 1),
    }];
    let inputs = NotesInputs {
        manifest: &m,
        framework: &fw,
        ic_coverage: &cov,
        ic_coverage_percent: "75.00".to_string(),
        nci_rollforwards: &[],
        cta_rollforwards: &cta,
        equity_method_investments: &[],
    };
    let notes = build_notes_to_consolidated_fs(&inputs, ymd(2024, 12, 31));
    assert!(notes.notes[1].body.contains("Fully-consolidated entities (0): none. Equity-method investees (0): none."));
    assert_eq!(notes.notes[3].body, "The group has no non-controlling interest as of the reporting date.");
    assert_eq!(
        notes.notes[4].body,
        "Cumulative translation adjustment by entity (opening, period, closing):\n- US1 (USD→CHF): opening -5, period 12.5, closing 7.5"
    );
    assert!(notes.notes[5].body.contains("consolidates 0 entities across 0 countries."));
}

#[test]
fn decimal_text_matches_decimal_display() {
    assert_eq!(dec_to_str(d(12345, 2)), "123.45");
    assert_eq!(dec_to_str(d(-5, 3)), "-0.005");
    assert_eq!(dec_to_str(d(7, 0)), "7");
}

#[test]
fn period_ends_the_day_before_the_next_period() {
    let q = compute_period_pub(&PeriodConfig { start_date: ymd(2024, 1, 1), length: PeriodLength::Quarterly, fiscal_year_end: None })
        .unwrap();
    assert_eq!(q.end, ymd(2024, 3, 31));
    let m = compute_period_pub(&PeriodConfig { start_date: ymd(2024, 2, 1), length: PeriodLength::Monthly, fiscal_year_end: None })
        .unwrap();
    assert_eq!(m.end, ymd(2024, 2, 29));
    let clamp = compute_period_pub(&PeriodConfig { start_date: ymd(2023, 1, 31), length: PeriodLength::Monthly, fiscal_year_end: None })
        .unwrap();
    assert_eq!(clamp.end, ymd(2023, 2, 27));
    let a = compute_period_pub(&PeriodConfig { start_date: ymd(2024, 7, 1), length: PeriodLength::Annual, fiscal_year_end: None })
        .unwrap();
    assert_eq!(a.end, ymd(2025, 6, 30));
    let s = compute_period_pub(&PeriodConfig { start_date: ymd(2024, 3, 1), length: PeriodLength::SemiAnnual, fiscal_year_end: None })
        .unwrap();
    assert_eq!(s.end, ymd(2024, 8, 31));
    let err = compute_period_pub(&PeriodConfig {
        start_date: ymd(262142, 12, 1),
        length: PeriodLength::Monthly,
        fiscal_year_end: None,
    })
    .unwrap_err();
    assert!(matches!(err, GroupError::Config(_)));
}

fn expanded(code: &str, country: &str, fw: Option<&str>) -> ExpandedEntity {
    ExpandedEntity {
        code: code.to_string(),
        name: None,
        country: country.to_string(),
        functional_currency: "EUR".to_string(),
        scoping_profile: "significant".to_string(),
        consolidation_method: ConsolidationMethod::Full,
        ownership_percent: None,
        parent_code: None,
        accounting_framework: fw.map(|f| f.to_string()),
        industry: None,
        hyperinflation_status: HyperinflationStatus::NotHyperinflationary,
        source: EntitySource::Explicit,
        generated_block_index: None,
        rows: None,
    }
}

#[test]
fn coa_master_one_chart_per_framework() {
    let es = vec![
        expanded("A", "DE", Some("German-GAAP")),
        expanded("B", "US", None),
        expanded("C", "US", Some("IFRS")),
        expanded("D", "CH", None),
    ];
    let m = build_coa_master(&es, Some("ifrs"), CoaComplexity::Medium, "GRP");
    let fws: Vec<&str> = m.frameworks.iter().map(|f| f.framework.as_str()).collect();
    assert_eq!(fws, vec!["hgb", "ifrs"]);
    assert_eq!(m.primary_framework, "ifrs");
    assert_eq!(m.frameworks[0].coa_id, "GRP_hgb_coa");
    assert_eq!(m.frameworks[0].country, None);
    assert_eq!(m.frameworks[1].name, "GRP ifrs chart of accounts");
    assert_eq!(m.frameworks[1].country.as_deref(), Some("US"));
    assert!(m.coa_id.starts_with("GROUP_CoA_"));
    assert_eq!(m.coa_id.len(), "GROUP_CoA_".len() + 16);
    let digest = blake3::hash(b"hgb,ifrs|Medium");
    assert_eq!(m.coa_id, format!("GROUP_CoA_{}", hex::encode(&digest.as_bytes()[..8])));
    let empty = build_coa_master(&[], None, CoaComplexity::Small, "G");
    assert_eq!(empty.frameworks.len(), 1);
    assert_eq!(empty.frameworks[0].framework, "ifrs");
    assert_eq!(empty.frameworks[0].country.as_deref(), Some("XX"));
    assert_eq!(defaults_complexity(Some("LARGE")), CoaComplexity::Large);
    assert_eq!(defaults_complexity(None), CoaComplexity::Medium);
}

#[test]
fn csv_fields_quoted_only_when_needed() {
    assert_eq!(csv_escape("plain"), "plain");
    assert_eq!(csv_escape("a,b"), "\"a,b\"");
    assert_eq!(csv_escape("say \"hi\""), "\"say \"\"hi\"\"\"");
    assert_eq!(csv_escape("two\nlines"), "\"two\nlines\"");
    assert_eq!(csv_escape(""), "");
}

#[test]
fn error_text_prefixes_the_phase() {
    assert_eq!(GroupError::Config("x".to_string()).message(), "config error: x");
    assert_eq!(GroupError::Aggregate("y".to_string()).message(), "aggregate error: y");
    assert_eq!(GroupError::Serde("z".to_string()).message(), "serde error: z");
}
