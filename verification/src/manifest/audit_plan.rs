//! The audit engagement plan: group materiality from a row-based revenue
//! proxy, component materiality and scope per entity, and one component
//! auditor per country.
use vstd::prelude::*;

use crate::config::{AuditEngagementConfig, ComponentScopeThresholds, MaterialityBasis};
use crate::dec::{dec_div, dec_lt, dec_mul, decimal_checked_div, decimal_checked_mul, Dec};
use crate::errors::GroupError;
use crate::manifest::expansion::ExpandedEntity;
use crate::sorted_map::{group_by_key, group_values, key_sorted, sm_map, sm_sorted, sort_keyed, str_views};

verus! {

/// Row count assumed for an entity without a row budget.
pub const FALLBACK_ENTITY_ROWS: u64 = 1_000_000;

/// Revenue proxy per generated row.
pub const REVENUE_PER_ROW_USD: u64 = 1_000;

/// ISA 600 scope of a component.
#[derive(Debug, Clone, Copy, PartialEq, Eq, Structural)]
pub enum ComponentScope {
    Full,
    Specific,
    Analytical,
}

/// Materiality and scope of one component.
#[derive(Debug, Clone)]
pub struct ComponentMaterialityAllocation {
    pub entity_code: String,
    pub materiality: Dec,
    pub scope: ComponentScope,
    pub revenue_share_estimate: Dec,
}

/// The component auditor of one jurisdiction.
#[derive(Debug, Clone)]
pub struct ComponentAuditor {
    /// `CA_<FIRM>_<JURISDICTION>`.
    pub id: String,
    pub firm: String,
    pub jurisdiction: String,
    pub entities: Vec<String>,
}

/// The audit engagement plan.
#[derive(Debug, Clone)]
pub struct AuditEngagementPlan {
    pub engagement_id: String,
    pub lead_auditor: String,
    pub framework: String,
    pub fsm_blueprint: String,
    pub group_materiality: Dec,
    pub performance_materiality: Dec,
    pub clearly_trivial: Dec,
    pub component_materiality_allocations: Vec<ComponentMaterialityAllocation>,
    pub component_auditors: Vec<ComponentAuditor>,
}

/// The decimals the plan takes from floating-point arithmetic: the fixed
/// factors `0.30`, `0.75`, `0.05`, the default scope thresholds `0.15`
/// and `0.05`, and per entity its revenue share (`rows / total`) and its
/// allocation factor (`1 - sqrt(1 - share)`).
#[derive(Debug, Clone)]
pub struct AuditFactors {
    pub equity_factor: Dec,
    pub performance_factor: Dec,
    pub trivial_factor: Dec,
    pub default_full_scope: Dec,
    pub default_specific_scope: Dec,
    pub shares: Vec<(Dec, Dec)>,
}

/// An entity's rows: its row budget, else the fallback.
pub open spec fn rows_of(e: ExpandedEntity) -> nat {
    match e.rows {
        Some(r) => r as nat,
        None => FALLBACK_ENTITY_ROWS as nat,
    }
}

/// Total rows of the entities.
pub open spec fn total_rows_spec(es: Seq<ExpandedEntity>) -> nat
    decreases es.len(),
{
    if es.len() == 0 {
        0
    } else {
        total_rows_spec(es.drop_last()) + rows_of(es.last())
    }
}

/// The rows of every entity, in order.
pub fn entity_rows(es: &[ExpandedEntity]) -> (r: Vec<u64>)
    ensures
        r@.len() == es@.len(),
        forall|k: int| 0 <= k < r@.len() ==> r@[k] == rows_of(#[trigger] es@[k]),
{
    let mut out: Vec<u64> = Vec::new();
    let mut i: usize = 0;
    while i < es.len()
        invariant
            i <= es@.len(),
            out@.len() == i,
            forall|k: int| 0 <= k < i ==> out@[k] == rows_of(#[trigger] es@[k]),
        decreases es.len() - i,
    {
        let r = match es[i].rows {
            Some(x) => x,
            None => FALLBACK_ENTITY_ROWS,
        };
        out.push(r);
        i = i + 1;
    }
    out
}

/// Total rows of the entities; `None` when it exceeds `u64`.
pub fn total_rows(es: &[ExpandedEntity]) -> (r: Option<u64>)
    ensures
        total_rows_spec(es@) <= u64::MAX ==> r == Some(total_rows_spec(es@) as u64),
        total_rows_spec(es@) > u64::MAX ==> r is None,
{
    let mut total: u64 = 0;
    let mut i: usize = 0;
    while i < es.len()
        invariant
            i <= es@.len(),
            total == total_rows_spec(es@.take(i as int)),
        decreases es.len() - i,
    {
        proof {
            assert(es@.take(i + 1).drop_last() =~= es@.take(i as int));
            lemma_total_rows_mono(es@, i + 1);
        }
        let r = match es[i].rows {
            Some(x) => x,
            None => FALLBACK_ENTITY_ROWS,
        };
        if r > u64::MAX - total {
            proof {
                lemma_total_rows_mono(es@, es@.len() as int);
                assert(es@.take(es@.len() as int) =~= es@);
            }
            return None;
        }
        total = total + r;
        i = i + 1;
    }
    proof {
        assert(es@.take(i as int) =~= es@);
    }
    Some(total)
}

proof fn lemma_total_rows_mono(es: Seq<ExpandedEntity>, k: int)
    requires
        0 <= k <= es.len(),
    ensures
        forall|j: int| 0 <= j <= k ==> total_rows_spec(#[trigger] es.take(j)) <= total_rows_spec(es.take(k)),
    decreases k,
{
    if k > 0 {
        lemma_total_rows_mono(es, k - 1);
        assert(es.take(k).drop_last() =~= es.take(k - 1));
    }
}

/// The scope of a component with revenue share `share`.
pub open spec fn scope_rule(share: Dec, full: Dec, specific: Dec) -> ComponentScope {
    if share.units() >= full.units() {
        ComponentScope::Full
    } else if share.units() >= specific.units() {
        ComponentScope::Specific
    } else {
        ComponentScope::Analytical
    }
}

/// Full scope at or above the full-scope threshold, specific scope at or
/// above the specific-scope threshold, analytical otherwise.
pub fn component_scope(share: Dec, full: Dec, specific: Dec) -> (r: ComponentScope)
    ensures
        r == scope_rule(share, full, specific),
{
    if !dec_lt(share, full) {
        ComponentScope::Full
    } else if !dec_lt(share, specific) {
        ComponentScope::Specific
    } else {
        ComponentScope::Analytical
    }
}

/// The revenue proxy of a row count: `max(rows, 1) × 1000`.
pub open spec fn revenue_proxy(total: nat) -> Dec {
    decimal_checked_mul(Dec::whole_spec(if total == 0 { 1 } else { total }), Dec::whole_spec(REVENUE_PER_ROW_USD as nat))->0
}

/// The materiality basis value from the revenue proxy: the proxy for
/// revenue and assets, a tenth of it for pre-tax income, the equity
/// factor of it for equity.
pub open spec fn basis_value(basis: MaterialityBasis, proxy: Dec, equity_factor: Dec) -> Dec {
    match basis {
        MaterialityBasis::Revenue => proxy,
        MaterialityBasis::Assets => proxy,
        MaterialityBasis::PretaxIncome => decimal_checked_div(proxy, Dec::int_spec(10))->0,
        MaterialityBasis::Equity => decimal_checked_mul(proxy, equity_factor)->0,
    }
}

/// The text of an optional setting, or its default.
pub open spec fn or_default(o: Option<String>, d: Seq<char>) -> Seq<char> {
    match o {
        Some(s) => s@,
        None => d,
    }
}

fn string_or(o: &Option<String>, d: String) -> (r: String)
    ensures
        r@ == or_default(*o, d@),
{
    match o {
        Some(s) => s.clone(),
        None => d,
    }
}

/// Auditor `a` covers jurisdiction `c`: lead firm for the first entity's
/// country, its entities sorted.
pub open spec fn auditor_ok(a: ComponentAuditor, c: Seq<char>, lead: Option<Seq<char>>, codes: Seq<Seq<char>>) -> bool {
    let firm = if lead == Some(c) {
        "UNDESIGNATED-LEAD"@
    } else {
        "UNDESIGNATED"@
    };
    &&& a.jurisdiction@ == c
    &&& a.firm@ == firm
    &&& a.id@ == "CA_"@ + firm + "_"@ + c
    &&& key_sorted(a.entities@)
    &&& str_views(a.entities@).to_multiset() == codes.to_multiset()
}

/// `(country, code)` of each entity, in order.
pub open spec fn country_codes(es: Seq<ExpandedEntity>) -> Seq<(Seq<char>, Seq<char>)> {
    es.map_values(|e: ExpandedEntity| (e.country@, e.code@))
}

fn country_code_pairs(es: &[ExpandedEntity]) -> (r: Vec<(String, String)>)
    ensures
        r@.len() == es@.len(),
        forall|k: int| 0 <= k < r@.len() ==> (#[trigger] r@[k]).0@ == es@[k].country@ && r@[k].1@ == es@[k].code@,
{
    let mut out: Vec<(String, String)> = Vec::new();
    let mut i: usize = 0;
    while i < es.len()
        invariant
            i <= es@.len(),
            out@.len() == i,
            forall|k: int| 0 <= k < i ==> (#[trigger] out@[k]).0@ == es@[k].country@ && out@[k].1@ == es@[k].code@,
        decreases es.len() - i,
    {
        out.push((es[i].country.clone(), es[i].code.clone()));
        i = i + 1;
    }
    out
}

/// Codes of the entities of country `c`, in entity order.
pub open spec fn codes_of_country(es: Seq<ExpandedEntity>, c: Seq<char>) -> Seq<Seq<char>>
    decreases es.len(),
{
    if es.len() == 0 {
        Seq::empty()
    } else if es.last().country@ == c {
        codes_of_country(es.drop_last(), c).push(es.last().code@)
    } else {
        codes_of_country(es.drop_last(), c)
    }
}

proof fn lemma_codes_of_country(pairs: Seq<(String, String)>, es: Seq<ExpandedEntity>, c: Seq<char>)
    requires
        pairs.len() == es.len(),
        forall|k: int| 0 <= k < pairs.len() ==> (#[trigger] pairs[k]).0@ == es[k].country@ && pairs[k].1@ == es[k].code@,
    ensures
        group_values(pairs, c) == codes_of_country(es, c),
        codes_of_country(es, c).len() > 0 <==> exists|j: int| 0 <= j < es.len() && #[trigger] es[j].country@ == c,
    decreases es.len(),
{
    if es.len() > 0 {
        lemma_codes_of_country(pairs.drop_last(), es.drop_last(), c);
        if exists|j: int| 0 <= j < es.len() && #[trigger] es[j].country@ == c {
            let j = choose|j: int| 0 <= j < es.len() && #[trigger] es[j].country@ == c;
            if j < es.len() - 1 {
                assert(es.drop_last()[j] == es[j]);
            }
        }
        if exists|j: int| 0 <= j < es.drop_last().len() && #[trigger] es.drop_last()[j].country@ == c {
            let j = choose|j: int| 0 <= j < es.drop_last().len() && #[trigger] es.drop_last()[j].country@ == c;
            assert(es[j] == es.drop_last()[j]);
        }
    }
}

/// Some auditor covers jurisdiction `c`.
pub open spec fn auditor_for(r: Seq<ComponentAuditor>, c: Seq<char>) -> bool {
    exists|k: int| 0 <= k < r.len() && (#[trigger] r[k]).jurisdiction@ == c
}

/// One component auditor per country, in country order.
pub fn component_auditors(es: &[ExpandedEntity]) -> (r: Vec<ComponentAuditor>)
    ensures
        forall|a: int, b: int| 0 <= a < b < r@.len() ==> crate::text::seq_lt(#[trigger] r@[a].jurisdiction@, #[trigger] r@[b].jurisdiction@),
        forall|c: Seq<char>| #[trigger] auditor_for(r@, c) <==> crate::manifest::tax_plan::entity_countries(es@).contains(c),
        forall|k: int| 0 <= k < r@.len() ==> {
            let lead = if es@.len() > 0 {
                Some(es@[0].country@)
            } else {
                None
            };
            auditor_ok(#[trigger] r@[k], r@[k].jurisdiction@, lead, codes_of_country(es@, r@[k].jurisdiction@))
        },
{
    let pairs = country_code_pairs(es);
    let groups = group_by_key(&pairs);
    let lead: Option<String> = if es.len() > 0 {
        Some(es[0].country.clone())
    } else {
        None
    };
    let ghost lead_v = if es@.len() > 0 {
        Some(es@[0].country@)
    } else {
        None::<Seq<char>>
    };
    let mut out: Vec<ComponentAuditor> = Vec::new();
    let mut g: usize = 0;
    while g < groups.len()
        invariant
            g <= groups@.len(),
            out@.len() == g,
            sm_sorted(groups@),
            lead_v == (if es@.len() > 0 {
                Some(es@[0].country@)
            } else {
                None::<Seq<char>>
            }),
            lead_v == (match lead {
                Some(l) => Some(l@),
                None => None::<Seq<char>>,
            }),
            pairs@.len() == es@.len(),
            forall|k: int| 0 <= k < pairs@.len() ==> (#[trigger] pairs@[k]).0@ == es@[k].country@ && pairs@[k].1@ == es@[k].code@,
            forall|c: Seq<char>| #[trigger] sm_map(groups@).contains_key(c) ==> str_views(sm_map(groups@)[c]@) == group_values(pairs@, c),
            forall|t: int| 0 <= t < g ==> (#[trigger] out@[t]).jurisdiction@ == groups@[t].0@,
            forall|t: int| 0 <= t < g ==> auditor_ok(#[trigger] out@[t], groups@[t].0@, lead_v, codes_of_country(es@, groups@[t].0@)),
        decreases groups.len() - g,
    {
        let country = &groups[g].0;
        let is_lead = match &lead {
            Some(l) => crate::text::str_eq(l.as_str(), country.as_str()),
            None => false,
        };
        let firm = if is_lead {
            "UNDESIGNATED-LEAD".to_string()
        } else {
            "UNDESIGNATED".to_string()
        };
        let id = "CA_".to_string().concat(firm.as_str()).concat("_").concat(country.as_str());
        let unsorted = crate::sorted_map::copy_string_vec(&groups[g].1);
        let ghost u0 = unsorted@;
        let codes = sort_keyed(unsorted);
        proof {
            crate::sorted_map::lemma_sm_at(groups@, g as int);
            lemma_codes_of_country(pairs@, es@, country@);
            let f = |s: String| s@;
            crate::sorted_map::lemma_multiset_map(codes@, u0, f);
            assert(str_views(codes@) =~= codes@.map_values(f));
            assert(str_views(u0) =~= u0.map_values(f));
        }
        let a = ComponentAuditor { id, firm, jurisdiction: country.clone(), entities: codes };
        proof {
            assert(auditor_ok(a, country@, lead_v, codes_of_country(es@, country@)));
        }
        out.push(a);
        g = g + 1;
    }
    proof {
        assert forall|a: int, b: int| 0 <= a < b < out@.len() implies crate::text::seq_lt(#[trigger] out@[a].jurisdiction@, #[trigger] out@[b].jurisdiction@) by {
            assert(crate::text::seq_lt(groups@[a].0@, groups@[b].0@));
        }
        assert forall|c: Seq<char>| #[trigger] auditor_for(out@, c) <==> crate::manifest::tax_plan::entity_countries(es@).contains(c) by {
            lemma_codes_of_country(pairs@, es@, c);
            crate::sorted_map::lemma_sm_contains_iff(groups@, c);
            if exists|k: int| 0 <= k < out@.len() && #[trigger] out@[k].jurisdiction@ == c {
                let k = choose|k: int| 0 <= k < out@.len() && #[trigger] out@[k].jurisdiction@ == c;
                assert(groups@[k].0@ == c);
            }
            if exists|j: int| 0 <= j < es@.len() && #[trigger] es@[j].country@ == c {
                let k = choose|k: int| 0 <= k < groups@.len() && #[trigger] groups@[k].0@ == c;
                assert(out@[k].jurisdiction@ == c);
            }
        }
    }
    out
}

/// The full-scope and specific-scope thresholds: configured, else the
/// defaults.
pub open spec fn thresholds(cfg: AuditEngagementConfig, f: AuditFactors) -> (Dec, Dec) {
    match cfg.component_scope_thresholds {
        Some(t) => (t.full_scope, t.specific_scope),
        None => (f.default_full_scope, f.default_specific_scope),
    }
}

/// Group materiality: the basis value times the configured percentage.
pub open spec fn group_materiality_spec(cfg: AuditEngagementConfig, es: Seq<ExpandedEntity>, f: AuditFactors) -> Dec {
    let m = cfg.group_materiality->0;
    decimal_checked_mul(basis_value(m.basis, revenue_proxy(total_rows_spec(es)), f.equity_factor), m.percent)->0
}

/// The materiality basis value, as [`basis_value`], or `None` when its
/// decimal operation fails.
pub open spec fn basis_option(basis: MaterialityBasis, proxy: Dec, equity_factor: Dec) -> Option<Dec> {
    match basis {
        MaterialityBasis::Revenue => Some(proxy),
        MaterialityBasis::Assets => Some(proxy),
        MaterialityBasis::PretaxIncome => decimal_checked_div(proxy, Dec::int_spec(10)),
        MaterialityBasis::Equity => decimal_checked_mul(proxy, equity_factor),
    }
}

/// The group materiality is set, the entities' rows total within a `u64`,
/// and every decimal product and quotient of the plan exists: the plan is
/// then built.
pub open spec fn audit_computable(cfg: AuditEngagementConfig, es: Seq<ExpandedEntity>, f: AuditFactors) -> bool {
    let total = total_rows_spec(es);
    let n = if es.len() < f.shares@.len() {
        es.len()
    } else {
        f.shares@.len()
    };
    &&& cfg.group_materiality is Some
    &&& total <= u64::MAX
    &&& decimal_checked_mul(Dec::whole_spec(if total == 0 { 1 } else { total }), Dec::whole_spec(REVENUE_PER_ROW_USD as nat)) is Some
    &&& basis_option(cfg.group_materiality->0.basis, revenue_proxy(total), f.equity_factor) is Some
    &&& decimal_checked_mul(basis_value(cfg.group_materiality->0.basis, revenue_proxy(total), f.equity_factor),
        cfg.group_materiality->0.percent) is Some
    &&& decimal_checked_mul(group_materiality_spec(cfg, es, f), f.performance_factor) is Some
    &&& decimal_checked_mul(group_materiality_spec(cfg, es, f), f.trivial_factor) is Some
    &&& forall|k: int| 0 <= k < n ==> #[trigger] decimal_checked_mul(group_materiality_spec(cfg, es, f), f.shares@[k].1) is Some
}

/// Build the audit engagement plan.  `factors` carries the decimals the
/// plan takes from floating-point arithmetic.
pub fn build_audit_engagement_plan(
    cfg: &AuditEngagementConfig,
    entities: &[ExpandedEntity],
    group_id: &str,
    aggregate_seed: &[u8; 32],
    factors: &AuditFactors,
) -> (r: Result<AuditEngagementPlan, GroupError>)
    ensures
        r is Err ==> r matches Err(GroupError::Config(_)),
        cfg.group_materiality is None ==> r is Err,
        audit_computable(*cfg, entities@, *factors) ==> r is Ok,
        r matches Ok(plan) ==> {
            let gm = group_materiality_spec(*cfg, entities@, *factors);
            let th = thresholds(*cfg, *factors);
            let n = if entities@.len() < factors.shares@.len() {
                entities@.len()
            } else {
                factors.shares@.len()
            };
            &&& plan.engagement_id@ == or_default(cfg.engagement_id, group_id@ + "_ENGAGEMENT"@)
            &&& plan.lead_auditor@ == or_default(cfg.lead_auditor, "UNDESIGNATED"@)
            &&& plan.framework@ == or_default(cfg.framework, "isa"@)
            &&& plan.fsm_blueprint@ == or_default(cfg.fsm_blueprint, "builtin:group_fsa"@)
            &&& total_rows_spec(entities@) <= u64::MAX
            &&& plan.group_materiality == gm
            &&& plan.performance_materiality == decimal_checked_mul(gm, factors.performance_factor)->0
            &&& plan.clearly_trivial == decimal_checked_mul(gm, factors.trivial_factor)->0
            &&& plan.component_materiality_allocations@.len() == n
            &&& forall|k: int| 0 <= k < n ==> {
                let a = #[trigger] plan.component_materiality_allocations@[k];
                &&& a.entity_code@ == entities@[k].code@
                &&& a.materiality == decimal_checked_mul(gm, factors.shares@[k].1)->0
                &&& a.revenue_share_estimate == factors.shares@[k].0
                &&& a.scope == scope_rule(factors.shares@[k].0, th.0, th.1)
            }
            &&& forall|a: int, b: int| 0 <= a < b < plan.component_auditors@.len() ==> crate::text::seq_lt(
                #[trigger] plan.component_auditors@[a].jurisdiction@,
                #[trigger] plan.component_auditors@[b].jurisdiction@,
            )
            &&& forall|c: Seq<char>| #[trigger] auditor_for(plan.component_auditors@, c)
                <==> crate::manifest::tax_plan::entity_countries(entities@).contains(c)
            &&& forall|k: int| 0 <= k < plan.component_auditors@.len() ==> {
                let lead = if entities@.len() > 0 {
                    Some(entities@[0].country@)
                } else {
                    None
                };
                auditor_ok(
                    #[trigger] plan.component_auditors@[k],
                    plan.component_auditors@[k].jurisdiction@,
                    lead,
                    codes_of_country(entities@, plan.component_auditors@[k].jurisdiction@),
                )
            }
        },
{
    let _ = aggregate_seed;
    let engagement_id = string_or(&cfg.engagement_id, group_id.to_string().concat("_ENGAGEMENT"));
    let lead_auditor = string_or(&cfg.lead_auditor, "UNDESIGNATED".to_string());
    let framework = string_or(&cfg.framework, "isa".to_string());
    let fsm_blueprint = string_or(&cfg.fsm_blueprint, "builtin:group_fsa".to_string());
    let mat_cfg = match cfg.group_materiality {
        Some(m) => m,
        None => {
            return Err(GroupError::Config("audit.group_materiality is required for v5.0 but is not set".to_string()));
        },
    };
    let total = match total_rows(entities) {
        Some(t) => t,
        None => {
            return Err(GroupError::Config("audit: entity row total overflows".to_string()));
        },
    };
    let nonzero = if total == 0 {
        1
    } else {
        total
    };
    let proxy = match dec_mul(Dec::from_u64(nonzero), Dec::from_u64(REVENUE_PER_ROW_USD)) {
        Some(x) => x,
        None => {
            return Err(GroupError::Config("audit: revenue proxy overflows".to_string()));
        },
    };
    let basis = match mat_cfg.basis {
        MaterialityBasis::Revenue => proxy,
        MaterialityBasis::Assets => proxy,
        MaterialityBasis::PretaxIncome => match dec_div(proxy, Dec::from_i64(10)) {
            Some(x) => x,
            None => {
                return Err(GroupError::Config("audit: materiality basis overflows".to_string()));
            },
        },
        MaterialityBasis::Equity => match dec_mul(proxy, factors.equity_factor) {
            Some(x) => x,
            None => {
                return Err(GroupError::Config("audit: materiality basis overflows".to_string()));
            },
        },
    };
    let gm = match dec_mul(basis, mat_cfg.percent) {
        Some(x) => x,
        None => {
            return Err(GroupError::Config("audit: group materiality overflows".to_string()));
        },
    };
    let perf = match dec_mul(gm, factors.performance_factor) {
        Some(x) => x,
        None => {
            return Err(GroupError::Config("audit: performance materiality overflows".to_string()));
        },
    };
    let trivial = match dec_mul(gm, factors.trivial_factor) {
        Some(x) => x,
        None => {
            return Err(GroupError::Config("audit: clearly trivial threshold overflows".to_string()));
        },
    };
    let (full, specific) = match cfg.component_scope_thresholds {
        Some(t) => (t.full_scope, t.specific_scope),
        None => (factors.default_full_scope, factors.default_specific_scope),
    };
    let n = if entities.len() < factors.shares.len() {
        entities.len()
    } else {
        factors.shares.len()
    };
    let ghost ok = audit_computable(*cfg, entities@, *factors);
    let mut allocations: Vec<ComponentMaterialityAllocation> = Vec::new();
    let mut k: usize = 0;
    while k < n
        invariant
            ok == audit_computable(*cfg, entities@, *factors),
            n == if entities@.len() < factors.shares@.len() {
                entities@.len()
            } else {
                factors.shares@.len()
            },
            k <= n,
            n <= entities@.len(),
            n <= factors.shares@.len(),
            gm == group_materiality_spec(*cfg, entities@, *factors),
            (full, specific) == thresholds(*cfg, *factors),
            allocations@.len() == k,
            forall|t: int| 0 <= t < k ==> {
                let a = #[trigger] allocations@[t];
                &&& a.entity_code@ == entities@[t].code@
                &&& a.materiality == decimal_checked_mul(gm, factors.shares@[t].1)->0
                &&& a.revenue_share_estimate == factors.shares@[t].0
                &&& a.scope == scope_rule(factors.shares@[t].0, full, specific)
            },
        decreases n - k,
    {
        let (share, factor) = factors.shares[k];
        proof {
            if ok {
                assert(decimal_checked_mul(gm, factors.shares@[k as int].1) is Some);
            }
        }
        let materiality = match dec_mul(gm, factor) {
            Some(x) => x,
            None => {
                return Err(GroupError::Config("audit: component materiality overflows".to_string()));
            },
        };
        let scope = component_scope(share, full, specific);
        allocations.push(
            ComponentMaterialityAllocation {
                entity_code: entities[k].code.clone(),
                materiality,
                scope,
                revenue_share_estimate: share,
            },
        );
        k = k + 1;
    }
    let auditors = component_auditors(entities);
    Ok(
        AuditEngagementPlan {
            engagement_id,
            lead_auditor,
            framework,
            fsm_blueprint,
            group_materiality: gm,
            performance_materiality: perf,
            clearly_trivial: trivial,
            component_materiality_allocations: allocations,
            component_auditors: auditors,
        },
    )
}

} // verus!
