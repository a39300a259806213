use datasynth_group::aggregate::translation::classify::TranslationAccountType;
use datasynth_group::aggregate::translation::translate::translate_entity_tb;
use datasynth_group::errors::GroupError;
use datasynth_group::aggregate::driver::{plan_archive_walk, resolve_primary_framework, AccountingFramework};
use datasynth_group::manifest::coa_master::canonicalize_framework;
use datasynth_group::aggregate::accounts::AccountType;
use datasynth_group::aggregate::coverage_report::build_coverage_report;
use datasynth_group::aggregate::fs::balance_sheet::build_consolidated_balance_sheet;
use datasynth_group::aggregate::fs::income_statement::build_consolidated_income_statement;
use datasynth_group::aggregate::ic_matcher::{IcMatchResult, UnmatchedReason, UnmatchedSide};
use datasynth_group::aggregate::ic_plan::IcRole;
use datasynth_group::aggregate::journal::{JournalEntry, JournalEntryHeader};
use datasynth_group::aggregate::pre_elim::{aggregate_pre_elimination, TrialBalance, TrialBalanceLine};
use datasynth_group::config::{
    ConsolidationMethod, FxPolicyConfig, FxRateBasis, IcMatchingConfig, IcMatchingStrategy, OutputLayout,
    OutputLayoutConfig, PeriodLength,
};
use datasynth_group::date::Date;
use datasynth_group::dec::Dec;
use datasynth_group::manifest::audit_plan::AuditEngagementPlan;
use datasynth_group::manifest::builder::{
    GroupManifest, HyperinflationStatus, ManifestEntity, ManifestPeriod, OwnershipGraphSection,
};
use datasynth_group::manifest::coa_master::ChartOfAccountsMaster;
use datasynth_group::manifest::expansion::country_to_currency_default;
use datasynth_group::manifest::fx_master::{split_pair, FxRateMaster};
use datasynth_group::manifest::seeds::{derive_aggregate_seed, derive_entity_seed};
use datasynth_group::manifest::shard_plan::{pad4, profile_initial, ShardPlan};
use datasynth_group::manifest::tax_plan::TaxGroupPlan;

fn d(m: i128, s: u32) -> Dec {
    Dec::new(m, s).unwrap()
}

fn ymd(year: i32, month: u32, day: u32) -> Date {
    Date { year, month, day }
}

fn entity(code: &str, method: ConsolidationMethod) -> ManifestEntity {
    ManifestEntity {
        code: code.to_string(),
        name: None,
        country: "CH".to_string(),
        functional_currency: "CHF".to_string(),
        scoping_profile: "significant".to_string(),
        consolidation_method: method,
        ownership_percent: None,
        parent_code: None,
        accounting_framework: None,
        industry: None,
        hyperinflation_status: HyperinflationStatus::NotHyperinflationary,
        entity_seed: "00".to_string(),
        shard_id: "S".to_string(),
    }
}

fn manifest(entities: Vec<ManifestEntity>) -> GroupManifest {
    GroupManifest {
        schema_version: "1.0".to_string(),
        group_id: "GRP".to_string(),
        group_seed: 1,
        presentation_currency: "CHF".to_string(),
        period: ManifestPeriod { start: ymd(2024, 1, 1), end: ymd(2024, 12, 31), length: PeriodLength::Annual },
        manifest_seed: String::new(),
        aggregate_seed: String::new(),
        ownership_graph: OwnershipGraphSection { parent_entity_code: "P".to_string(), entities },
        chart_of_accounts_master: ChartOfAccountsMaster {
            primary_framework: "ifrs".to_string(),
            frameworks: Vec::new(),
            coa_id: "C".to_string(),
        },
        fx_rate_master: FxRateMaster {
            base_currency: "CHF".to_string(),
            policy: FxPolicyConfig {
                balance_sheet: FxRateBasis::Closing,
                income_statement: FxRateBasis::Average,
                equity: FxRateBasis::Historical,
            },
            rates: Vec::new(),
            closing_by_pair: Vec::new(),
            average_by_pair: Vec::new(),
        },
        ic_relationships: Vec::new(),
        audit_engagement_plan: AuditEngagementPlan {
            engagement_id: String::new(),
            lead_auditor: String::new(),
            framework: String::new(),
            fsm_blueprint: String::new(),
            group_materiality: Dec::zero(),
            performance_materiality: Dec::zero(),
            clearly_trivial: Dec::zero(),
            component_materiality_allocations: Vec::new(),
            component_auditors: Vec::new(),
        },
        tax_group_plan: TaxGroupPlan { pillar_two: None, cbc_report: None, transfer_pricing: None },
        shard_plan: ShardPlan { shards: Vec::new() },
        output: OutputLayoutConfig { layout: OutputLayout::PerEntitySubtree, shared_masters_at_root: true, compression: None },
        matching: IcMatchingConfig { strategy: IcMatchingStrategy::ManifestDriven, tolerance_percent: Dec::zero() },
    }
}

fn line(code: &str, ty: AccountType, debit: Dec, credit: Dec) -> TrialBalanceLine {
    TrialBalanceLine { account_code: code.to_string(), account_type: ty, debit_balance: debit, credit_balance: credit }
}

fn tb(code: &str, lines: Vec<TrialBalanceLine>) -> TrialBalance {
    // Every amount in these scenarios is whole, so the header totals are
    // the sums of the line mantissas.
    let debits: i128 = lines.iter().map(|l| l.debit_balance.mantissa()).sum();
    let credits: i128 = lines.iter().map(|l| l.credit_balance.mantissa()).sum();
    TrialBalance {
        company_code: code.to_string(),
        currency: "CHF".to_string(),
        as_of_date: ymd(2024, 12, 31),
        lines,
        total_debits: d(debits, 0),
        total_credits: d(credits, 0),
    }
}

#[test]
fn pre_elimination_sums_contributing_and_defers_the_rest() {
    let m = manifest(vec![
        entity("P", ConsolidationMethod::Parent),
        entity("S", ConsolidationMethod::Full),
        entity("A", ConsolidationMethod::EquityMethod),
    ]);
    let tbs = vec![
        ("P".to_string(), tb("P", vec![line("1000", AccountType::Asset, d(100, 0), Dec::zero())])),
        ("S".to_string(), tb("S", vec![line("1000", AccountType::Asset, d(50, 0), Dec::zero()),
            line("4000", AccountType::Revenue, Dec::zero(), d(50, 0))])),
        ("A".to_string(), tb("A", vec![line("1000", AccountType::Asset, d(999, 0), Dec::zero())])),
    ];
    let agg = aggregate_pre_elimination(&m, &tbs).unwrap();
    assert_eq!(agg.account_totals.len(), 2);
    assert_eq!(agg.account_totals[0].account_code, "1000");
    assert_eq!(agg.account_totals[0].debit_total, d(150, 0));
    assert_eq!(agg.account_totals[0].contributing_entities, 2);
    assert_eq!(agg.account_totals[1].credit_total, d(50, 0));
    assert_eq!(agg.contributing_entities, vec!["P".to_string(), "S".to_string()]);
    assert_eq!(agg.deferred_entities.len(), 1);
    assert_eq!(agg.deferred_entities[0].entity_code, "A");
    assert_eq!(agg.total_debits, d(150, 0));
    assert_eq!(agg.total_credits, d(50, 0));

    let unknown = vec![("ZZ".to_string(), tb("ZZ", vec![]))];
    assert!(aggregate_pre_elimination(&m, &unknown).is_err());

    let is = build_consolidated_income_statement(&agg, &[], "GRP", ymd(2024, 12, 31)).unwrap();
    assert_eq!(is.revenue.len(), 1);
    assert_eq!(is.net_income, d(50, 0));
    assert_eq!(is.net_income_to_nci, Dec::zero());
    // Assets of 150 against no liabilities or equity: the sheet does not
    // balance, and the error names both totals and the gap.
    match build_consolidated_balance_sheet(&agg, "GRP", ymd(2024, 12, 31)) {
        Err(GroupError::Aggregate(m)) => assert_eq!(
            m,
            "build_consolidated_balance_sheet: total_assets 150 != total_liabilities + total_equity + total_nci 0 (diff 150)"
        ),
        _ => panic!("an unbalanced sheet must be refused"),
    }
}

#[test]
fn coverage_histogram_counts_add_up_to_unmatched_sides() {
    let side = |reason| UnmatchedSide {
        pair_id: "ab".to_string(),
        present_role: IcRole::Buyer,
        present_entity: "E".to_string(),
        present_je: JournalEntry {
            header: JournalEntryHeader {
                document_id: "D".to_string(),
                company_code: "E".to_string(),
                posting_date: ymd(2024, 1, 1),
                currency: "CHF".to_string(),
                is_elimination: false,
                ic_pair_id: None,
            },
            lines: Vec::new(),
        },
        reason,
    };
    let mr = IcMatchResult {
        matched: Vec::new(),
        unmatched: vec![
            side(UnmatchedReason::MissingSellerSide),
            side(UnmatchedReason::MissingSellerSide),
            side(UnmatchedReason::AmountDriftAboveTolerance),
        ],
        total_planned: 3,
    };
    let r = build_coverage_report(&mr);
    let total: usize = r.unmatched_by_reason.iter().map(|(_, n)| *n).sum();
    assert_eq!(total, 3);
    assert_eq!(r.unmatched_by_reason[1], (UnmatchedReason::MissingSellerSide, 2));
    assert_eq!(r.unmatched_sample.len(), 3);
}

#[test]
fn seeds_are_blake3_digests_of_tagged_inputs() {
    let e1 = derive_entity_seed(42, "E1");
    let e2 = derive_entity_seed(42, "E2");
    assert_ne!(e1, e2);
    assert_eq!(e1, derive_entity_seed(42, "E1"));
    let a = derive_aggregate_seed(42, ymd(2024, 1, 1));
    assert_ne!(a, derive_aggregate_seed(43, ymd(2024, 1, 1)));
    let mut h = blake3::Hasher::new();
    h.update(b"entity");
    h.update(&42u64.to_le_bytes());
    h.update(b"E1");
    assert_eq!(e1, *h.finalize().as_bytes());
}

#[test]
fn shard_labels_and_currency_defaults() {
    assert_eq!(profile_initial("significant"), "SIG");
    assert_eq!(pad4(7), "0007");
    assert_eq!(country_to_currency_default("DE"), "EUR");
    assert_eq!(country_to_currency_default("CH"), "CHF");
    let (from, to) = split_pair("EUR/CHF").unwrap();
    assert_eq!((from.as_str(), to.as_str()), ("EUR", "CHF"));
    assert!(split_pair("EURCHF").is_err());
}

#[test]
fn _resolve_primary_framework_is_pure_string_match() {
    let mut m = manifest(Vec::new());
    assert!(matches!(resolve_primary_framework(&m), AccountingFramework::Ifrs));
    m.chart_of_accounts_master.primary_framework = "US-GAAP".to_string();
    assert!(matches!(resolve_primary_framework(&m), AccountingFramework::UsGaap));
    m.chart_of_accounts_master.primary_framework = "HGB".to_string();
    assert!(matches!(resolve_primary_framework(&m), AccountingFramework::GermanGaap));
    m.chart_of_accounts_master.primary_framework = "local".to_string();
    assert!(matches!(resolve_primary_framework(&m), AccountingFramework::UsGaap));
}

#[test]
fn profile_initial_takes_the_first_three_characters() {
    assert_eq!(profile_initial("material"), "MAT");
    assert_eq!(profile_initial("minor"), "MIN");
    assert_eq!(profile_initial("a1bc"), "A1B");
}

#[test]
fn unknown_frameworks_are_kept_as_given() {
    assert_eq!(canonicalize_framework("IFRS"), "ifrs");
    assert_eq!(canonicalize_framework("UsGaap"), "us_gaap");
    assert_eq!(canonicalize_framework("german_gaap"), "hgb");
    assert_eq!(canonicalize_framework("Local-GAAP"), "Local-GAAP");
}

#[test]
fn archive_walk_splits_present_entities_and_sorts_missing_ones() {
    let es = vec![
        entity("P", ConsolidationMethod::Parent),
        entity("Z", ConsolidationMethod::Full),
        entity("A", ConsolidationMethod::EquityMethod),
        entity("M", ConsolidationMethod::Full),
    ];
    let w = plan_archive_walk(&es, &[true, false, true, false], true).unwrap();
    assert_eq!(w.contributing, vec!["P".to_string()]);
    assert_eq!(w.deferred, vec!["A".to_string()]);
    assert_eq!(w.missing, vec!["M".to_string(), "Z".to_string()]);
    assert!(plan_archive_walk(&es, &[true, false, true, true], false).is_err());
}

#[test]
fn pre_elimination_refuses_a_summed_entity_in_another_currency() {
    let m = manifest(vec![entity("P", ConsolidationMethod::Parent), entity("S", ConsolidationMethod::Full)]);
    let mut s_tb = tb("S", vec![line("1000", AccountType::Asset, d(10, 0), Dec::zero())]);
    s_tb.currency = "EUR".to_string();
    let tbs = vec![
        ("P".to_string(), tb("P", vec![line("1000", AccountType::Asset, d(100, 0), Dec::zero())])),
        ("S".to_string(), s_tb),
    ];
    match aggregate_pre_elimination(&m, &tbs) {
        Err(GroupError::Aggregate(msg)) => assert_eq!(
            msg,
            "aggregate_pre_elimination: entity `S` has trial balance currency EUR but the presentation currency is CHF"
        ),
        _ => panic!("a trial balance in another currency must be refused"),
    }
}

#[test]
fn balanced_sheet_is_accepted() {
    let m = manifest(vec![entity("P", ConsolidationMethod::Parent)]);
    let tbs = vec![(
        "P".to_string(),
        tb("P", vec![
            line("1000", AccountType::Asset, d(100, 0), Dec::zero()),
            line("3000", AccountType::Equity, Dec::zero(), d(100, 0)),
        ]),
    )];
    let agg = aggregate_pre_elimination(&m, &tbs).unwrap();
    let bs = build_consolidated_balance_sheet(&agg, "GRP", ymd(2024, 12, 31)).unwrap();
    assert_eq!(bs.total_assets, d(100, 0));
    assert_eq!(bs.total_liabilities_plus_equity_plus_nci, d(100, 0));
}

#[test]
fn identity_translation_has_zero_cta_even_when_unbalanced() {
    let m = manifest(vec![entity("P", ConsolidationMethod::Parent)]);
    let t = tb("P", vec![line("1000", AccountType::Asset, d(12345, 2), Dec::zero())]);
    let r = translate_entity_tb(&t, &[TranslationAccountType::BsMonetary], "CHF", &m.fx_rate_master, ymd(2024, 12, 31), "CHF")
        .unwrap();
    assert_eq!(r.cta, Dec::zero());
    assert_eq!(r.lines.len(), 1);
    assert_eq!(r.lines[0].translated_amount, d(12345, 2));
    assert_eq!(r.total_translated_debits, d(12345, 2));
}
