use datasynth_group::aggregate::accounts::AccountType;
use datasynth_group::aggregate::driver::{
    build_cta_rollforwards, build_equity_method_investments, build_nci_rollforwards, dividends_from_tb,
    net_income_from_tb, net_income_from_translated, oci_from_translated, opening_balance_map, opening_for,
    resolve_primary_framework, translate_all_contributing, AccountingFramework,
};
use datasynth_group::aggregate::pre_elim::{TrialBalance, TrialBalanceLine};
use datasynth_group::aggregate::translation::classify::TranslationAccountType;
use datasynth_group::aggregate::translation::translate::{DrCr, RateBasis, TranslatedLine, TranslatedTb};
use datasynth_group::config::{
    ConsolidationMethod, FxPolicyConfig, FxRateBasis, IcMatchingConfig, IcMatchingStrategy, OutputLayout,
    OutputLayoutConfig, PeriodLength,
};
use datasynth_group::date::Date;
use datasynth_group::dec::Dec;
use datasynth_group::manifest::audit_plan::AuditEngagementPlan;
use datasynth_group::manifest::builder::{
    GroupManifest, HyperinflationStatus, ManifestEntity, ManifestPeriod, OwnershipGraphSection,
};
use datasynth_group::manifest::coa_master::ChartOfAccountsMaster;
use datasynth_group::manifest::fx_master::FxRateMaster;
use datasynth_group::manifest::shard_plan::ShardPlan;
use datasynth_group::manifest::tax_plan::TaxGroupPlan;

fn d(m: i128, s: u32) -> Dec {
    Dec::new(m, s).unwrap()
}

fn ymd(year: i32, month: u32, day: u32) -> Date {
    Date { year, month, day }
}

fn entity(code: &str, method: ConsolidationMethod, ownership: Option<Dec>, parent: Option<&str>, ccy: &str) -> ManifestEntity {
    ManifestEntity {
        code: code.to_string(),
        name: None,
        country: "DE".to_string(),
        functional_currency: ccy.to_string(),
        scoping_profile: "significant".to_string(),
        consolidation_method: method,
        ownership_percent: ownership,
        parent_code: parent.map(|p| p.to_string()),
        accounting_framework: None,
        industry: None,
        hyperinflation_status: HyperinflationStatus::NotHyperinflationary,
        entity_seed: "00".to_string(),
        shard_id: "S_SIG_0001".to_string(),
    }
}

fn manifest(entities: Vec<ManifestEntity>, primary: &str) -> GroupManifest {
    GroupManifest {
        schema_version: "1.0".to_string(),
        group_id: "G".to_string(),
        group_seed: 7,
        presentation_currency: "CHF".to_string(),
        period: ManifestPeriod { start: ymd(2024, 1, 1), end: ymd(2024, 3, 31), length: PeriodLength::Quarterly },
        manifest_seed: String::new(),
        aggregate_seed: String::new(),
        ownership_graph: OwnershipGraphSection { parent_entity_code: "P".to_string(), entities },
        chart_of_accounts_master: ChartOfAccountsMaster {
            primary_framework: primary.to_string(),
            frameworks: Vec::new(),
            coa_id: "C".to_string(),
        },
        fx_rate_master: FxRateMaster {
            base_currency: "CHF".to_string(),
            policy: FxPolicyConfig {
                balance_sheet: FxRateBasis::Closing,
                income_statement: FxRateBasis::Average,
                equity: FxRateBasis::Historical,
            },
            rates: vec![("EUR/CHF".to_string(), vec![(ymd(2024, 3, 31), d(95, 2))])],
            closing_by_pair: vec![("EUR/CHF".to_string(), d(95, 2))],
            average_by_pair: vec![("EUR/CHF".to_string(), d(94, 2))],
        },
        ic_relationships: Vec::new(),
        audit_engagement_plan: AuditEngagementPlan {
            engagement_id: String::new(),
            lead_auditor: String::new(),
            framework: String::new(),
            fsm_blueprint: String::new(),
            group_materiality: Dec::zero(),
            performance_materiality: Dec::zero(),
            clearly_trivial: Dec::zero(),
            component_materiality_allocations: Vec::new(),
            component_auditors: Vec::new(),
        },
        tax_group_plan: TaxGroupPlan { pillar_two: None, cbc_report: None, transfer_pricing: None },
        shard_plan: ShardPlan { shards: Vec::new() },
        output: OutputLayoutConfig { layout: OutputLayout::PerEntitySubtree, shared_masters_at_root: true, compression: None },
        matching: IcMatchingConfig { strategy: IcMatchingStrategy::ManifestDriven, tolerance_percent: Dec::zero() },
    }
}

fn tline(code: &str, amount: Dec, side: DrCr, ty: TranslationAccountType) -> TranslatedLine {
    TranslatedLine {
        account_code: code.to_string(),
        local_amount: amount,
        local_dr_cr: side,
        fx_rate: d(1, 0),
        rate_basis: RateBasis::Average,
        translated_amount: amount,
        account_type: ty,
    }
}

fn translated(code: &str, fc: &str, cta: Dec, lines: Vec<TranslatedLine>) -> TranslatedTb {
    TranslatedTb {
        entity_code: code.to_string(),
        functional_currency: fc.to_string(),
        presentation_currency: "CHF".to_string(),
        as_of_date: ymd(2024, 3, 31),
        lines,
        total_translated_debits: Dec::zero(),
        total_translated_credits: Dec::zero(),
        cta,
    }
}

fn line(code: &str, ty: AccountType, debit: Dec, credit: Dec) -> TrialBalanceLine {
    TrialBalanceLine { account_code: code.to_string(), account_type: ty, debit_balance: debit, credit_balance: credit }
}

#[test]
fn primary_framework_label_matched_case_insensitively() {
    assert_eq!(resolve_primary_framework(&manifest(vec![], "IFRS")), AccountingFramework::Ifrs);
    assert_eq!(resolve_primary_framework(&manifest(vec![], "us-gaap")), AccountingFramework::UsGaap);
    assert_eq!(resolve_primary_framework(&manifest(vec![], "HGB")), AccountingFramework::GermanGaap);
    assert_eq!(resolve_primary_framework(&manifest(vec![], "pcg")), AccountingFramework::FrenchGaap);
    assert_eq!(resolve_primary_framework(&manifest(vec![], "dual")), AccountingFramework::DualReporting);
    assert_eq!(resolve_primary_framework(&manifest(vec![], "swiss_or")), AccountingFramework::UsGaap);
}

#[test]
fn opening_map_rejects_duplicates_and_reads_back_closings() {
    let rows = vec![("B".to_string(), d(20, 0)), ("A".to_string(), d(10, 0))];
    let m = opening_balance_map(&rows).unwrap();
    assert_eq!(m.iter().map(|(k, _)| k.as_str()).collect::<Vec<_>>(), vec!["A", "B"]);
    assert_eq!(opening_for(&m, "A"), d(10, 0));
    assert_eq!(opening_for(&m, "B"), d(20, 0));
    assert_eq!(opening_for(&m, "C"), Dec::zero());
    let dup = vec![("A".to_string(), d(1, 0)), ("A".to_string(), d(2, 0))];
    let err = opening_balance_map(&dup).unwrap_err();
    assert!(err.message().contains("duplicate entity `A`"));
}

#[test]
fn translated_net_income_and_oci_signs() {
    let t = translated(
        "E",
        "EUR",
        Dec::zero(),
        vec![
            tline("4000", d(1000, 0), DrCr::Credit, TranslationAccountType::PlRevenue),
            tline("5000", d(400, 0), DrCr::Debit, TranslationAccountType::PlExpense),
            tline("1000", d(999, 0), DrCr::Debit, TranslationAccountType::BsMonetary),
            tline("8000", d(50, 0), DrCr::Credit, TranslationAccountType::PlOci),
            tline("8100", d(20, 0), DrCr::Debit, TranslationAccountType::PlOci),
        ],
    );
    assert_eq!(net_income_from_translated(&t), d(600, 0));
    assert_eq!(oci_from_translated(&t), d(30, 0));
}

#[test]
fn untranslated_net_income_and_dividends() {
    let lines = vec![
        line("4000", AccountType::Revenue, Dec::zero(), d(700, 0)),
        line("5000", AccountType::Expense, d(300, 0), Dec::zero()),
        line("3500", AccountType::Equity, d(120, 0), d(20, 0)),
        line("1000", AccountType::Asset, d(50, 0), Dec::zero()),
    ];
    let types = vec![
        TranslationAccountType::PlRevenue,
        TranslationAccountType::PlExpense,
        TranslationAccountType::Equity,
        TranslationAccountType::BsMonetary,
    ];
    assert_eq!(net_income_from_tb(&lines, &types), d(400, 0));
    assert_eq!(dividends_from_tb(&lines, "3500"), d(100, 0));
    assert_eq!(dividends_from_tb(&lines, "3999"), Dec::zero());
}

#[test]
fn cta_rollforwards_skip_presentation_currency_entities() {
    let ts = vec![
        translated("CH1", "CHF", Dec::zero(), vec![]),
        translated("DE1", "EUR", d(15, 0), vec![]),
    ];
    let opening = opening_balance_map(&[("DE1".to_string(), d(5, 0))]).unwrap();
    let rolls = build_cta_rollforwards(&ts, "CHF", &opening).unwrap();
    assert_eq!(rolls.len(), 1);
    assert_eq!(rolls[0].entity_code, "DE1");
    assert_eq!(rolls[0].opening_cta, d(5, 0));
    assert_eq!(rolls[0].period_cta, d(15, 0));
    assert_eq!(rolls[0].closing_cta, d(20, 0));
}

#[test]
fn nci_rollforwards_measure_partially_owned_full_subsidiaries_only() {
    let m = manifest(
        vec![
            entity("P", ConsolidationMethod::Parent, None, None, "CHF"),
            entity("SUB80", ConsolidationMethod::Full, Some(d(80, 2)), Some("P"), "CHF"),
            entity("SUB100", ConsolidationMethod::Full, Some(d(1, 0)), Some("P"), "CHF"),
            entity("ASSOC", ConsolidationMethod::EquityMethod, Some(d(30, 2)), Some("P"), "CHF"),
        ],
        "ifrs",
    );
    let ts = vec![translated(
        "SUB80",
        "CHF",
        Dec::zero(),
        vec![tline("4000", d(1000, 0), DrCr::Credit, TranslationAccountType::PlRevenue)],
    )];
    let opening = opening_balance_map(&[("SUB80".to_string(), d(800, 0))]).unwrap();
    let rolls = build_nci_rollforwards(&m, &ts, &opening).unwrap();
    assert_eq!(rolls.len(), 1);
    assert_eq!(rolls[0].entity_code, "SUB80");
    assert_eq!(rolls[0].opening_nci, d(800, 0));
    assert_eq!(rolls[0].nci_share_of_profit, d(200, 0));
    assert_eq!(rolls[0].closing_nci, d(1000, 0));
}

#[test]
fn nci_rollforwards_need_a_translated_tb() {
    let m = manifest(vec![entity("SUB80", ConsolidationMethod::Full, Some(d(80, 2)), Some("P"), "CHF")], "ifrs");
    let err = build_nci_rollforwards(&m, &[], &Vec::new()).unwrap_err();
    assert!(err.message().contains("needs translated TB for `SUB80`"));
}

#[test]
fn equity_method_investments_read_income_off_deferred_tbs() {
    let m = manifest(
        vec![
            entity("P", ConsolidationMethod::Parent, None, None, "CHF"),
            entity("ASSOC", ConsolidationMethod::EquityMethod, Some(d(30, 2)), Some("P"), "CHF"),
            entity("NOPARENT", ConsolidationMethod::EquityMethod, Some(d(30, 2)), None, "CHF"),
        ],
        "ifrs",
    );
    let tb = TrialBalance {
        company_code: "ASSOC".to_string(),
        currency: "CHF".to_string(),
        as_of_date: ymd(2024, 3, 31),
        lines: vec![
            line("4000", AccountType::Revenue, Dec::zero(), d(1000, 0)),
            line("3500", AccountType::Equity, d(100, 0), Dec::zero()),
        ],
        total_debits: d(100, 0),
        total_credits: d(1000, 0),
    };
    let deferred = vec![("ASSOC".to_string(), tb)];
    let types = vec![vec![TranslationAccountType::PlRevenue, TranslationAccountType::Equity]];
    let opening = opening_balance_map(&[("ASSOC".to_string(), d(500, 0))]).unwrap();
    let invs = build_equity_method_investments(&m, &deferred, &types, "3500", &opening, &Vec::new()).unwrap();
    assert_eq!(invs.len(), 1);
    assert_eq!(invs[0].investee_code, "ASSOC");
    assert_eq!(invs[0].investor_entity_code, "P");
    assert_eq!(invs[0].opening_carrying_value, d(500, 0));
    assert_eq!(invs[0].share_of_profit, d(300, 0));
    assert_eq!(invs[0].dividends_received, d(30, 0));
    assert_eq!(invs[0].closing_carrying_value, d(770, 0));
}

#[test]
fn translate_all_contributing_uses_manifest_functional_currency() {
    let m = manifest(vec![entity("DE1", ConsolidationMethod::Full, Some(d(1, 0)), Some("P"), "EUR")], "ifrs");
    let tb = TrialBalance {
        company_code: "DE1".to_string(),
        currency: "EUR".to_string(),
        as_of_date: ymd(2024, 3, 31),
        lines: vec![line("1000", AccountType::Asset, d(100, 0), Dec::zero())],
        total_debits: d(100, 0),
        total_credits: Dec::zero(),
    };
    let tbs = vec![("DE1".to_string(), tb)];
    let types = vec![vec![TranslationAccountType::BsMonetary]];
    let out = translate_all_contributing(&tbs, &types, &m).unwrap();
    assert_eq!(out.len(), 1);
    assert_eq!(out[0].functional_currency, "EUR");
    assert_eq!(out[0].lines[0].fx_rate, d(95, 2));
    assert_eq!(out[0].lines[0].translated_amount, d(95, 0));
    let unknown = vec![("XX".to_string(), tbs[0].1.clone())];
    let err = translate_all_contributing(&unknown, &types, &m).unwrap_err();
    assert!(err.message().contains("entity `XX` not in manifest's ownership graph"));
}
