//! `group:` configuration types.
use vstd::prelude::*;

use crate::date::Date;
use crate::dec::Dec;

verus! {

#[derive(Debug, Clone, Copy, PartialEq, Eq)]
pub enum PeriodLength {
    Monthly,
    Quarterly,
    SemiAnnual,
    Annual,
}

/// The engagement period: its first day and its length.
#[derive(Debug, Clone, Copy)]
pub struct PeriodConfig {
    pub start_date: Date,
    pub length: PeriodLength,
    pub fiscal_year_end: Option<Date>,
}

#[derive(Debug, Clone, Copy, PartialEq, Eq, Structural)]
pub enum ConsolidationMethod {
    Parent,
    Full,
    EquityMethod,
    Proportional,
    FairValue,
}

/// The variant name of a consolidation method, as `{:?}` writes it.
pub open spec fn method_name_spec(m: ConsolidationMethod) -> Seq<char> {
    match m {
        ConsolidationMethod::Parent => "Parent"@,
        ConsolidationMethod::Full => "Full"@,
        ConsolidationMethod::EquityMethod => "EquityMethod"@,
        ConsolidationMethod::Proportional => "Proportional"@,
        ConsolidationMethod::FairValue => "FairValue"@,
    }
}

/// The variant name of a consolidation method.
pub fn method_name(m: ConsolidationMethod) -> (r: &'static str)
    ensures
        r@ == method_name_spec(m),
{
    match m {
        ConsolidationMethod::Parent => "Parent",
        ConsolidationMethod::Full => "Full",
        ConsolidationMethod::EquityMethod => "EquityMethod",
        ConsolidationMethod::Proportional => "Proportional",
        ConsolidationMethod::FairValue => "FairValue",
    }
}

#[derive(Debug, Clone, PartialEq, Eq)]
pub struct IcPattern {
    pub seller_scoping_profile: Option<String>,
    pub buyer_scoping_profile: Option<String>,
    pub seller: Option<String>,
    pub buyer: Option<String>,
}

#[derive(Debug, Clone, Copy, PartialEq, Eq, Structural)]
pub enum IcTransactionType {
    GoodsSale,
    ServiceProvided,
    ManagementFee,
    Royalty,
    CostSharing,
    LoanInterest,
    Dividend,
    ExpenseRecharge,
}

#[derive(Debug, Clone, Copy, PartialEq, Eq)]
pub enum TransferPricingMethod {
    CostPlus,
    ComparableUncontrolled,
    ResalePrice,
    TransactionalNetMargin,
    ProfitSplit,
}

#[derive(Debug, Clone, Copy, PartialEq, Eq, Structural)]
pub enum IcMatchingStrategy {
    ManifestDriven,
    EmergentFuzzy,
}

/// How the intercompany matcher joins the two sides of a pair.
#[derive(Debug, Clone, Copy)]
pub struct IcMatchingConfig {
    pub strategy: IcMatchingStrategy,
    /// Largest accepted `|seller - buyer| / max(|seller|, |buyer|)` in the
    /// fuzzy mode; unused by the manifest-driven mode.
    pub tolerance_percent: Dec,
}

/// The strategy the matcher uses when the configuration names none.
pub fn default_strategy() -> (r: IcMatchingStrategy)
    ensures
        r == IcMatchingStrategy::ManifestDriven,
{
    IcMatchingStrategy::ManifestDriven
}

#[derive(Debug, Clone, Copy, PartialEq, Eq)]
pub enum FxRateSource {
    Inline,
    UserSupplied,
    HistoricalSeries,
}

#[derive(Debug, Clone, Copy, PartialEq, Eq, Structural)]
pub enum FxRateBasis {
    Closing,
    Average,
    Historical,
}

#[derive(Debug, Clone, Copy, PartialEq, Eq)]
pub struct FxPolicyConfig {
    pub balance_sheet: FxRateBasis,
    pub income_statement: FxRateBasis,
    pub equity: FxRateBasis,
}

#[derive(Debug, Clone, Copy, PartialEq, Eq)]
pub enum MaterialityBasis {
    Revenue,
    Assets,
    PretaxIncome,
    Equity,
}

#[derive(Debug, Clone, PartialEq, Eq)]
pub struct PillarTwoConfig {
    pub enabled: bool,
    pub jurisdictions: Vec<String>,
}

#[derive(Debug, Clone, PartialEq, Eq)]
pub struct CbcReportConfig {
    pub enabled: bool,
    pub reporting_jurisdiction: Option<String>,
}

#[derive(Debug, Clone, PartialEq, Eq)]
pub struct TpConfig {
    pub master_file: bool,
    pub local_files_for: Vec<String>,
}

#[derive(Debug, Clone, PartialEq, Eq)]
pub struct TaxGroupConfig {
    pub pillar_two: Option<PillarTwoConfig>,
    pub cbc_report: Option<CbcReportConfig>,
    pub transfer_pricing: Option<TpConfig>,
}

#[derive(Debug, Clone, Copy, PartialEq, Eq, Structural)]
pub enum OutputLayout {
    PerEntitySubtree,
    Flat,
}

/// The output layout used when the configuration names none.
pub fn default_layout() -> (r: OutputLayout)
    ensures
        r == OutputLayout::PerEntitySubtree,
{
    OutputLayout::PerEntitySubtree
}

/// The value of a flag that defaults to on.
pub fn default_true() -> (r: bool)
    ensures
        r,
{
    true
}

#[derive(Debug, Clone, Copy, PartialEq, Eq)]
pub enum OutputCompression {
    Json,
    Csv,
    Parquet,
}

#[derive(Debug, Clone, Copy, PartialEq, Eq)]
pub struct OutputLayoutConfig {
    pub layout: OutputLayout,
    pub shared_masters_at_root: bool,
    pub compression: Option<OutputCompression>,
}

#[derive(Debug, Clone, PartialEq, Eq)]
pub struct FleetConfig {
    pub dispatcher: Option<String>,
    pub max_concurrent_shards: Option<u32>,
    pub per_shard_timeout_seconds: Option<u64>,
}

/// One cash-generating-unit definition.
#[derive(Debug, Clone, PartialEq, Eq)]
pub struct CguDefinitionEntry {
    pub cgu_id: String,
    pub name: String,
    pub member_entity_codes: Vec<String>,
    pub segment_code: Option<String>,
}

/// Goodwill allocated to a cash-generating unit from one business
/// combination.
#[derive(Debug, Clone)]
pub struct CguGoodwillAllocationEntry {
    pub cgu_id: String,
    pub business_combination_id: String,
    /// Non-negative, in the presentation currency.
    pub goodwill_amount: Dec,
    pub allocation_date: crate::date::Date,
}

/// Cash-generating units and their goodwill allocations.
#[derive(Debug, Clone)]
pub struct CguConfig {
    pub cgus: Vec<CguDefinitionEntry>,
    pub goodwill_allocations: Vec<CguGoodwillAllocationEntry>,
}

/// FX configuration: the rate table and the translation policy.
#[derive(Debug, Clone)]
pub struct FxConfig {
    pub base_currency: String,
    pub rate_source: FxRateSource,
    /// Pair key `FROM/TO` → (date → rate); pairs sorted strictly, dates
    /// strictly increasing within a pair.
    pub rates: Vec<(String, Vec<(crate::date::Date, Dec)>)>,
    pub policy: FxPolicyConfig,
}

/// An intercompany relationship between two named entities.
#[derive(Debug, Clone)]
pub struct IcRelationshipExplicit {
    pub seller: String,
    pub buyer: String,
    pub types: Vec<IcTransactionType>,
    pub annual_volume: Dec,
    pub transfer_pricing: Option<TransferPricingMethod>,
    pub markup_percent: Option<Dec>,
}

/// An intercompany relationship pattern, fanned out to every matching
/// (seller, buyer) pair.
#[derive(Debug, Clone)]
pub struct IcRelationshipPattern {
    pub pattern: IcPattern,
    pub types: Vec<IcTransactionType>,
    pub per_pair_volume: Dec,
    pub transfer_pricing: Option<TransferPricingMethod>,
}

/// One configured intercompany relationship.
#[derive(Debug, Clone)]
pub enum IcRelationshipConfig {
    Explicit(IcRelationshipExplicit),
    Pattern(IcRelationshipPattern),
}

/// Intercompany configuration.
#[derive(Debug, Clone)]
pub struct IntercompanyConfig {
    pub relationships: Vec<IcRelationshipConfig>,
    pub matching: IcMatchingConfig,
}

/// Group materiality: a percentage of a basis.
#[derive(Debug, Clone, Copy)]
pub struct GroupMaterialityConfig {
    pub basis: MaterialityBasis,
    pub percent: Dec,
}

/// Revenue-share thresholds of the component scopes.
#[derive(Debug, Clone, Copy)]
pub struct ComponentScopeThresholds {
    pub full_scope: Dec,
    pub specific_scope: Dec,
}

/// Audit engagement configuration.
#[derive(Debug, Clone)]
pub struct AuditEngagementConfig {
    pub engagement_id: Option<String>,
    pub lead_auditor: Option<String>,
    pub framework: Option<String>,
    pub fsm_blueprint: Option<String>,
    pub group_materiality: Option<GroupMaterialityConfig>,
    pub component_scope_thresholds: Option<ComponentScopeThresholds>,
}

/// The group configuration the manifest is built from.  The ownership
/// blocks are expanded into entities beforehand; of the free-form
/// `defaults` and `scoping_profiles` sections, the values the manifest
/// reads are held here.
#[derive(Debug, Clone)]
pub struct GroupConfig {
    pub id: String,
    pub seed: u64,
    pub presentation_currency: String,
    pub period: PeriodConfig,
    /// `ownership.parent_entity_code`.
    pub parent_entity_code: String,
    /// `defaults.accounting_framework`, when it is a string.
    pub default_accounting_framework: Option<String>,
    /// `defaults.complexity`, when it is a string.
    pub default_complexity: Option<String>,
    /// Row budget of each scoping profile, sorted by profile.
    pub row_budgets: Vec<(String, u64)>,
    pub fx: FxConfig,
    pub intercompany: IntercompanyConfig,
    pub audit: AuditEngagementConfig,
    pub tax: TaxGroupConfig,
    pub output: OutputLayoutConfig,
}

} // verus!
