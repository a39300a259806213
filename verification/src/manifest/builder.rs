//! The group manifest: the frozen plan the generation and aggregate phases
//! run from.  Only the parts the aggregate logic reads are held here.
use vstd::prelude::*;

use crate::config::{ConsolidationMethod, GroupConfig, IcMatchingConfig, OutputLayoutConfig, PeriodConfig, PeriodLength};
use crate::manifest::audit_plan::{audit_computable, build_audit_engagement_plan, AuditEngagementPlan, AuditFactors};
use crate::manifest::coa_master::{build_coa_master, coa_master_built, defaults_complexity, CoaComplexity};
use crate::manifest::expansion::ExpandedEntity;
use crate::manifest::fx_master::{build_fx_master, fx_computable, fx_valid};
use crate::manifest::ic_expansion::{expand_ic_relationships, hex_encode, hex_lower, rel_ok, ResolvedIcRelationship};
use crate::manifest::seeds::{derive_aggregate_seed, derive_entity_seed, derive_manifest_seed, seed_digest};
use crate::manifest::shard_plan::{build_shard_plan, plan_shards, profile_groups, shard_code_map, shard_views, ShardPlan};
use crate::manifest::tax_plan::{build_tax_group_plan, tax_config_valid, TaxGroupPlan};
use crate::sorted_map::{lemma_sm_at, sm_find, sm_map, sm_sorted};
use crate::date::{add_months, add_months_spec, chrono_date, date_text, date_to_string, max_year, min_year, month_index, pred_date, pred_spec, Date};
use crate::dec::Dec;
use crate::errors::GroupError;
use crate::manifest::coa_master::ChartOfAccountsMaster;
use crate::manifest::fx_master::FxRateMaster;

verus! {

/// Whether an entity reports in a hyperinflationary economy.
#[derive(Debug, Clone, Copy, PartialEq, Eq, Structural)]
pub enum HyperinflationStatus {
    NotHyperinflationary,
    Hyperinflationary,
}

/// The reporting period of the manifest.
#[derive(Debug, Clone, Copy)]
pub struct ManifestPeriod {
    pub start: Date,
    pub end: Date,
    pub length: PeriodLength,
}

/// One entity of the ownership graph.
#[derive(Debug, Clone)]
pub struct ManifestEntity {
    pub code: String,
    pub name: Option<String>,
    pub country: String,
    pub functional_currency: String,
    pub scoping_profile: String,
    pub consolidation_method: ConsolidationMethod,
    /// Parent's ownership share, in `[0, 1]`.
    pub ownership_percent: Option<Dec>,
    pub parent_code: Option<String>,
    pub accounting_framework: Option<String>,
    pub industry: Option<String>,
    pub hyperinflation_status: HyperinflationStatus,
    pub entity_seed: String,
    pub shard_id: String,
}

/// The ownership graph: the parent and every entity of the group.
#[derive(Debug, Clone)]
pub struct OwnershipGraphSection {
    pub parent_entity_code: String,
    pub entities: Vec<ManifestEntity>,
}

/// The group manifest.
#[derive(Debug, Clone)]
pub struct GroupManifest {
    pub schema_version: String,
    pub group_id: String,
    pub group_seed: u64,
    pub presentation_currency: String,
    pub period: ManifestPeriod,
    pub manifest_seed: String,
    pub aggregate_seed: String,
    pub ownership_graph: OwnershipGraphSection,
    /// One chart of accounts per framework in use.
    pub chart_of_accounts_master: ChartOfAccountsMaster,
    /// Closing and average rates for translation.
    pub fx_rate_master: FxRateMaster,
    /// Every resolved intercompany relationship.
    pub ic_relationships: Vec<ResolvedIcRelationship>,
    pub audit_engagement_plan: AuditEngagementPlan,
    pub tax_group_plan: TaxGroupPlan,
    /// Entities batched into shards.
    pub shard_plan: ShardPlan,
    pub output: OutputLayoutConfig,
    pub matching: IcMatchingConfig,
}

/// Months in a period of length `l`.
pub open spec fn months_of(l: PeriodLength) -> nat {
    match l {
        PeriodLength::Monthly => 1,
        PeriodLength::Quarterly => 3,
        PeriodLength::SemiAnnual => 6,
        PeriodLength::Annual => 12,
    }
}

/// The period starting on `cfg.start_date`: it ends the day before the
/// same day `months_of(cfg.length)` months later (that day clamped to the
/// end of its month).  `Err` exactly when that date is past the range of
/// representable dates.
pub fn compute_period_pub(cfg: &PeriodConfig) -> (r: Result<ManifestPeriod, GroupError>)
    requires
        chrono_date(cfg.start_date),
    ensures
        r is Ok <==> month_index(cfg.start_date, months_of(cfg.length)) / 12 <= max_year(),
        r matches Ok(p) ==> {
            &&& p.start == cfg.start_date
            &&& p.end == pred_spec(add_months_spec(cfg.start_date, months_of(cfg.length)))
            &&& p.length == cfg.length
        },
{
    let start = cfg.start_date;
    let months: u32 = match cfg.length {
        PeriodLength::Monthly => 1,
        PeriodLength::Quarterly => 3,
        PeriodLength::SemiAnnual => 6,
        PeriodLength::Annual => 12,
    };
    let next = match add_months(start, months) {
        Some(d) => d,
        None => {
            let msg = "invalid period start_date '".to_string().concat(date_to_string(start).as_str()).concat(
                "' — cannot compute period end",
            );
            return Err(GroupError::Config(msg));
        },
    };
    proof {
        let t = month_index(start, months as nat);
        assert(t / 12 >= start.year);
    }
    let end = match pred_date(next) {
        Some(d) => d,
        None => {
            let msg = "invalid period start_date '".to_string().concat(date_to_string(start).as_str()).concat(
                "' — cannot compute period end",
            );
            return Err(GroupError::Config(msg));
        },
    };
    Ok(ManifestPeriod { start, end, length: cfg.length })
}

/// Version of the manifest's shape.
pub const MANIFEST_SCHEMA_VERSION: &'static str = "1.0";

/// Views of an optional string.
pub open spec fn opt_view(o: Option<String>) -> Option<Seq<char>> {
    match o {
        Some(s) => Some(s@),
        None => None,
    }
}

pub(crate) fn clone_opt(o: &Option<String>) -> (r: Option<String>)
    ensures
        opt_view(r) == opt_view(*o),
{
    match o {
        Some(s) => Some(s.clone()),
        None => None,
    }
}

/// `m` is the manifest record of the expanded entity `e`: its fields, the
/// hex of its entity seed, and the shard `shards` assigns it (empty when
/// none does).
pub open spec fn entity_assembled(m: ManifestEntity, e: ExpandedEntity, seed: u64, shards: Map<Seq<char>, Seq<char>>) -> bool {
    &&& m.code@ == e.code@
    &&& opt_view(m.name) == opt_view(e.name)
    &&& m.country@ == e.country@
    &&& m.functional_currency@ == e.functional_currency@
    &&& m.scoping_profile@ == e.scoping_profile@
    &&& m.consolidation_method == e.consolidation_method
    &&& m.ownership_percent == e.ownership_percent
    &&& opt_view(m.parent_code) == opt_view(e.parent_code)
    &&& opt_view(m.accounting_framework) == opt_view(e.accounting_framework)
    &&& opt_view(m.industry) == opt_view(e.industry)
    &&& m.hyperinflation_status == e.hyperinflation_status
    &&& m.entity_seed@ == hex_lower(seed_digest("entity"@, seed, e.code@))
    &&& m.shard_id@ == (if shards.contains_key(e.code@) {
        shards[e.code@]
    } else {
        Seq::empty()
    })
}

/// The complexity the configuration defaults name.
pub open spec fn config_complexity(cfg: GroupConfig) -> CoaComplexity {
    match cfg.default_complexity {
        Some(l) => crate::manifest::coa_master::complexity_of_label(crate::manifest::coa_master::lowercase(l@)),
        None => CoaComplexity::Medium,
    }
}

/// Build the group manifest from the configuration and its expanded
/// entities: the period, the manifest and aggregate seeds, the shard plan,
/// the chart-of-accounts master, the FX rate master, the resolved IC
/// relationships, the audit and tax plans (the audit plan's
/// floating-point factors in `audit_factors`), and each entity with its
/// seed and shard.  `Err` when a builder refuses its part.
pub fn build_manifest(cfg: &GroupConfig, expanded: &[ExpandedEntity], audit_factors: &AuditFactors) -> (r: Result<
    GroupManifest,
    GroupError,
>)
    requires
        chrono_date(cfg.period.start_date),
        sm_sorted(cfg.row_budgets@),
        sm_sorted(cfg.fx.rates@),
        expanded@.len() < u32::MAX,
    ensures
        month_index(cfg.period.start_date, months_of(cfg.period.length)) / 12 > max_year() ==> r is Err,
        ({
            let start = cfg.period.start_date;
            let end = pred_spec(add_months_spec(start, months_of(cfg.period.length)));
            &&& month_index(start, months_of(cfg.period.length)) / 12 <= max_year()
            &&& fx_computable(cfg.fx, cfg.presentation_currency@, start, end, expanded@)
            &&& forall|i: int| 0 <= i < cfg.intercompany.relationships@.len() ==> rel_ok(
                #[trigger] cfg.intercompany.relationships@[i],
                expanded@,
            )
            &&& audit_computable(cfg.audit, expanded@, *audit_factors)
            &&& tax_config_valid(cfg.tax, expanded@)
        }) ==> r is Ok,
        r matches Ok(m) ==> {
            let start = cfg.period.start_date;
            let end = pred_spec(add_months_spec(start, months_of(cfg.period.length)));
            &&& m.schema_version@ == "1.0"@
            &&& m.group_id@ == cfg.id@
            &&& m.group_seed == cfg.seed
            &&& m.presentation_currency@ == cfg.presentation_currency@
            &&& m.period.start == start && m.period.end == end && m.period.length == cfg.period.length
            &&& m.manifest_seed@ == hex_lower(seed_digest("manifest"@, cfg.seed, date_text(start)))
            &&& m.aggregate_seed@ == hex_lower(seed_digest("aggregate"@, cfg.seed, date_text(start)))
            &&& m.ownership_graph.parent_entity_code@ == cfg.parent_entity_code@
            &&& exists|groups: Seq<(Seq<char>, Seq<(String, u64)>)>|
                profile_groups(expanded@, cfg.row_budgets@, groups) && #[trigger] plan_shards(groups) == shard_views(m.shard_plan.shards@)
            &&& m.ownership_graph.entities@.len() == expanded@.len()
            &&& forall|k: int| 0 <= k < expanded@.len() ==> entity_assembled(
                #[trigger] m.ownership_graph.entities@[k],
                expanded@[k],
                cfg.seed,
                shard_code_map(m.shard_plan.shards@),
            )
            &&& coa_master_built(
                m.chart_of_accounts_master,
                expanded@,
                match cfg.default_accounting_framework {
                    Some(f) => Some(f@),
                    None => None,
                },
                config_complexity(*cfg),
                cfg.id@,
            )
            &&& fx_valid(cfg.fx, cfg.presentation_currency@, start, end, expanded@)
            &&& m.fx_rate_master.base_currency@ == cfg.presentation_currency@
            &&& forall|i: int| 0 <= i < cfg.intercompany.relationships@.len() ==> rel_ok(
                #[trigger] cfg.intercompany.relationships@[i],
                expanded@,
            )
            &&& tax_config_valid(cfg.tax, expanded@)
            &&& cfg.audit.group_materiality is Some
            &&& m.output == cfg.output
            &&& m.matching == cfg.intercompany.matching
        },
{
    // 1. The engagement period.
    let period = compute_period_pub(&cfg.period)?;
    proof {
        assert(chrono_date(period.end)) by {
            let t = month_index(cfg.period.start_date, months_of(cfg.period.length));
            assert(t / 12 >= cfg.period.start_date.year);
        }
    }
    // 2. Manifest and aggregate seeds.
    let manifest_seed = derive_manifest_seed(cfg.seed, period.start);
    let aggregate_seed = derive_aggregate_seed(cfg.seed, period.start);
    // 3. Shard plan, and the shard of each entity.
    let shard_plan = build_shard_plan(expanded, &cfg.row_budgets)?;
    let shard_by_code = shard_plan.shard_by_code();
    // 4. Chart-of-accounts master.
    let complexity = defaults_complexity(
        match &cfg.default_complexity {
            Some(s) => Some(s.as_str()),
            None => None,
        },
    );
    let coa_master = build_coa_master(
        expanded,
        match &cfg.default_accounting_framework {
            Some(s) => Some(s.as_str()),
            None => None,
        },
        complexity,
        cfg.id.as_str(),
    );
    // 5. FX rate master.
    let fx_master = build_fx_master(&cfg.fx, cfg.presentation_currency.as_str(), period.start, period.end, expanded)?;
    // 6. Intercompany relationships.
    let ic_relationships = expand_ic_relationships(&cfg.intercompany, expanded, cfg.seed)?;
    // 7. Audit engagement plan.
    let audit_engagement_plan = build_audit_engagement_plan(
        &cfg.audit,
        expanded,
        cfg.id.as_str(),
        &aggregate_seed,
        audit_factors,
    )?;
    // 8. Tax group plan.
    let tax_group_plan = build_tax_group_plan(&cfg.tax, expanded)?;
    // 9. The manifest entities.
    let ghost shards = shard_code_map(shard_plan.shards@);
    let mut entities: Vec<ManifestEntity> = Vec::new();
    let mut i: usize = 0;
    while i < expanded.len()
        invariant
            i <= expanded@.len(),
            sm_sorted(shard_by_code@),
            sm_map(shard_by_code@).map_values(|v: String| v@) == shards,
            entities@.len() == i,
            forall|k: int| 0 <= k < i ==> entity_assembled(#[trigger] entities@[k], expanded@[k], cfg.seed, shards),
        decreases expanded.len() - i,
    {
        let e = &expanded[i];
        let seed = derive_entity_seed(cfg.seed, e.code.as_str());
        let (found, idx) = sm_find(&shard_by_code, e.code.as_str());
        let shard_id = if found {
            proof {
                lemma_sm_at(shard_by_code@, idx as int);
            }
            shard_by_code[idx].1.clone()
        } else {
            String::new()
        };
        proof {
            assert(sm_map(shard_by_code@).map_values(|v: String| v@).contains_key(e.code@) == found);
        }
        entities.push(
            ManifestEntity {
                code: e.code.clone(),
                name: clone_opt(&e.name),
                country: e.country.clone(),
                functional_currency: e.functional_currency.clone(),
                scoping_profile: e.scoping_profile.clone(),
                consolidation_method: e.consolidation_method,
                ownership_percent: e.ownership_percent,
                parent_code: clone_opt(&e.parent_code),
                accounting_framework: clone_opt(&e.accounting_framework),
                industry: clone_opt(&e.industry),
                hyperinflation_status: e.hyperinflation_status,
                entity_seed: hex_encode(&seed),
                shard_id,
            },
        );
        i = i + 1;
    }
    Ok(
        GroupManifest {
            schema_version: MANIFEST_SCHEMA_VERSION.to_string(),
            group_id: cfg.id.clone(),
            group_seed: cfg.seed,
            presentation_currency: cfg.presentation_currency.clone(),
            period,
            manifest_seed: hex_encode(&manifest_seed),
            aggregate_seed: hex_encode(&aggregate_seed),
            ownership_graph: OwnershipGraphSection {
                parent_entity_code: cfg.parent_entity_code.clone(),
                entities,
            },
            chart_of_accounts_master: coa_master,
            fx_rate_master: fx_master,
            ic_relationships,
            audit_engagement_plan,
            tax_group_plan,
            shard_plan,
            output: cfg.output.clone(),
            matching: cfg.intercompany.matching.clone(),
        },
    )
}

} // verus!
