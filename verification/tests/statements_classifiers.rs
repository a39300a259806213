use datasynth_group::aggregate::accounts::{AccountType, AggregatedAccount};
use datasynth_group::aggregate::fs::account_names::AccountNameDictionary;
use datasynth_group::aggregate::fs::balance_sheet::{classify_bs_section_from_account, BsSection};
use datasynth_group::dec::Dec;
use datasynth_group::manifest::coa_master::{ChartAccount, ChartOfAccountsMaster};

fn chart(code_name_pairs: &[(&str, &str)]) -> Vec<ChartAccount> {
    code_name_pairs
        .iter()
        .map(|(code, name)| ChartAccount { account_number: code.to_string(), short_description: name.to_string() })
        .collect()
}

fn acct(code: &str, kind: AccountType) -> AggregatedAccount {
    AggregatedAccount {
        account_code: code.to_string(),
        debit_total: Dec::zero(),
        credit_total: Dec::zero(),
        net_balance: Dec::zero(),
        contributing_entities: 0,
        account_type: kind,
    }
}

#[test]
fn default_resolves_canonical_codes() {
    let dict = AccountNameDictionary::default();
    assert_eq!(dict.get("1100"), "Trade receivables");
    assert_eq!(dict.get("4000"), "Product revenue");
    assert_eq!(dict.get("9999"), "9999");
}

#[test]
fn from_chart_overrides_canonical_labels() {
    let coa = chart(&[("1100", "Forderungen aus Lieferungen und Leistungen")]);
    let dict = AccountNameDictionary::from_chart(&coa);
    assert_eq!(
        dict.get("1100"),
        "Forderungen aus Lieferungen und Leistungen",
        "engagement label must win over built-in canonical label"
    );
    assert_eq!(dict.get("4000"), "Product revenue");
}

#[test]
fn empty_chart_falls_back_to_canonical() {
    let coa = chart(&[]);
    let dict = AccountNameDictionary::from_chart(&coa);
    assert_eq!(dict.get("1100"), "Trade receivables");
}

#[test]
fn missing_framework_falls_back_to_canonical() {
    let dict = AccountNameDictionary::from_coa_master(
        &ChartOfAccountsMaster {
            primary_framework: "us_gaap".to_string(),
            frameworks: Vec::new(),
            coa_id: "TEST".to_string(),
        },
        "us_gaap",
    );
    assert_eq!(dict.get("1100"), "Trade receivables");
}

#[test]
fn classifier_us_gaap_canonical_ranges() {
    let cases = [
        ("1000", AccountType::Asset, BsSection::CurrentAsset),
        ("1399", AccountType::Asset, BsSection::CurrentAsset),
        ("1500", AccountType::Asset, BsSection::NonCurrentAsset),
        ("1850", AccountType::Asset, BsSection::NonCurrentAsset),
        ("2000", AccountType::Liability, BsSection::CurrentLiability),
        ("2300", AccountType::Liability, BsSection::NonCurrentLiability),
        ("3000", AccountType::Equity, BsSection::Equity),
        ("3500", AccountType::Equity, BsSection::Nci),
        ("4000", AccountType::Revenue, BsSection::Excluded),
        ("6000", AccountType::Expense, BsSection::Excluded),
    ];
    for (code, kind, want) in cases {
        assert_eq!(classify_bs_section_from_account(code, &acct(code, kind)), want, "{code} ({kind:?})");
    }
}

#[test]
fn classifier_skr_german_routes_correctly() {
    assert_eq!(
        classify_bs_section_from_account("0010", &acct("0010", AccountType::Asset)),
        BsSection::NonCurrentAsset,
        "SKR 0xxx fixed assets → non-current asset"
    );
    assert_eq!(
        classify_bs_section_from_account("1200", &acct("1200", AccountType::Asset)),
        BsSection::CurrentAsset,
        "SKR 1xxx current assets → current asset"
    );
    assert_eq!(
        classify_bs_section_from_account("2000", &acct("2000", AccountType::Equity)),
        BsSection::Equity,
        "SKR 2xxx equity → Equity (NOT CurrentLiability)"
    );
    assert_eq!(
        classify_bs_section_from_account("3000", &acct("3000", AccountType::Liability)),
        BsSection::CurrentLiability,
        "SKR 3xxx liability → CurrentLiability (NOT Equity)"
    );
    assert_eq!(
        classify_bs_section_from_account("4000", &acct("4000", AccountType::Revenue)),
        BsSection::Excluded,
        "SKR 4xxx revenue → Excluded"
    );
    assert_eq!(
        classify_bs_section_from_account("6000", &acct("6000", AccountType::Expense)),
        BsSection::Excluded,
        "SKR 6xxx opex → Excluded"
    );
}

#[test]
fn classifier_pcg_french_routes_correctly() {
    assert_eq!(
        classify_bs_section_from_account("210000", &acct("210000", AccountType::Asset)),
        BsSection::NonCurrentAsset,
        "PCG 2xxxxx fixed assets → non-current asset"
    );
    assert_eq!(
        classify_bs_section_from_account("411000", &acct("411000", AccountType::Asset)),
        BsSection::CurrentAsset,
        "PCG 411xxx customer receivables → current asset"
    );
    assert_eq!(
        classify_bs_section_from_account("401000", &acct("401000", AccountType::Liability)),
        BsSection::CurrentLiability,
        "PCG 401xxx suppliers → current liability"
    );
    assert_eq!(
        classify_bs_section_from_account("512000", &acct("512000", AccountType::Asset)),
        BsSection::CurrentAsset,
        "PCG 5xxxxx cash → current asset"
    );
    assert_eq!(
        classify_bs_section_from_account("101000", &acct("101000", AccountType::Equity)),
        BsSection::Equity,
        "PCG 10xxxx capital → Equity"
    );
}

#[test]
fn classifier_contra_variants_stay_on_bs() {
    assert!(matches!(
        classify_bs_section_from_account("1599", &acct("1599", AccountType::ContraAsset)),
        BsSection::NonCurrentAsset | BsSection::CurrentAsset
    ));
    assert!(matches!(
        classify_bs_section_from_account("2199", &acct("2199", AccountType::ContraLiability)),
        BsSection::CurrentLiability | BsSection::NonCurrentLiability
    ));
    assert!(matches!(
        classify_bs_section_from_account("3299", &acct("3299", AccountType::ContraEquity)),
        BsSection::Equity
    ));
}
