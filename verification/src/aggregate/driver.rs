//! The steps of an aggregate run that sit between the phases: the run's
//! options, the framework the manifest names, the net income, OCI and
//! dividends read off trial balances, the opening balances carried over
//! from a prior period, and the per-entity translation, CTA, NCI and
//! equity-method steps.  Reading the shard archives and writing the
//! artefacts is left to the caller.
use vstd::prelude::*;

use crate::aggregate::equity_method::{
    compute_equity_method_investment, em_computable, em_result_matches, em_valid, EquityMethodInputs, EquityMethodInvestment,
};
use crate::aggregate::nci::{
    compute_nci_rollforward, has_control_lost, nci_amounts_match, nci_computable, nci_valid, NciInputs, NciRollforward,
    OwnershipChangeEvent,
};
use crate::aggregate::pre_elim::{lemma_tb_lines_prefix, tb_lines_abs, tb_lines_scale, TrialBalance, TrialBalanceLine};
use crate::aggregate::translation::cta::{cta_rollforward, CtaRollforward};
use crate::aggregate::translation::classify::TranslationAccountType;
use crate::aggregate::translation::translate::{
    fx_master_wf, lemma_translated_prefix, line_rate, missing_rate, translate_entity_tb, translated_abs,
    translated_fits, translated_scale, translation_fits, translation_of, DrCr, TranslatedLine, TranslatedTb,
};
use crate::config::ConsolidationMethod;
use crate::date::chrono_date;
use crate::dec::{abs, abs_sum, dec_add, dec_lt, dec_sub, fits_at, fits_sum, lemma_bounded_fits, magnitudes_fit, max_nat, max_scale, pow10, Dec};
use crate::errors::GroupError;
use crate::manifest::builder::{GroupManifest, ManifestEntity, ManifestPeriod};
use crate::manifest::fx_master::FxRateMaster;
use crate::manifest::coa_master::{lowercase, to_lowercase};
use crate::sorted_map::{key_sorted, lemma_sm_contains_iff, sm_find, sm_map, sm_sorted, sm_upsert, sort_keyed};
use crate::text::str_eq;

verus! {

/// Which shard archives an aggregate run reads: the codes of the parent
/// and fully consolidated entities present (their trial balances and
/// entries are consolidated line by line), of the other entities present
/// (held back for the equity-method and similar treatments), and of the
/// entities whose archive is missing, sorted.
#[derive(Debug, Clone)]
pub struct WalkPlan {
    pub contributing: Vec<String>,
    pub deferred: Vec<String>,
    pub missing: Vec<String>,
}

/// A method whose entities are consolidated line by line.
pub open spec fn consolidated_line_by_line(m: ConsolidationMethod) -> bool {
    m == ConsolidationMethod::Parent || m == ConsolidationMethod::Full
}

/// The codes of the first `n` entities that are present (`want_present`)
/// or absent, and, among present ones, consolidated line by line or not
/// (`line_by_line`; ignored for absent ones), in manifest order.
pub open spec fn walk_codes(
    es: Seq<ManifestEntity>,
    present: Seq<bool>,
    want_present: bool,
    line_by_line: bool,
    n: int,
) -> Seq<String>
    decreases n,
{
    if n <= 0 {
        Seq::empty()
    } else {
        let r = walk_codes(es, present, want_present, line_by_line, n - 1);
        let e = es[n - 1];
        if present[n - 1] == want_present && (!want_present || consolidated_line_by_line(e.consolidation_method)
            == line_by_line) {
            r.push(e.code)
        } else {
            r
        }
    }
}

/// Plan the walk over the shard archives, `present[i]` telling whether
/// entity `i`'s archive exists.  `Err` when an archive is missing and
/// missing archives are not tolerated.
pub fn plan_archive_walk(entities: &[ManifestEntity], present: &[bool], tolerate_missing_shards: bool) -> (r: Result<
    WalkPlan,
    GroupError,
>)
    requires
        present@.len() == entities@.len(),
    ensures
        r is Err <==> ((exists|i: int| 0 <= i < present@.len() && !#[trigger] present@[i]) && !tolerate_missing_shards),
        r is Err ==> r matches Err(GroupError::Aggregate(_)),
        r matches Ok(w) ==> {
            let n = entities@.len() as int;
            &&& w.contributing@ == walk_codes(entities@, present@, true, true, n)
            &&& w.deferred@ == walk_codes(entities@, present@, true, false, n)
            &&& key_sorted(w.missing@)
            &&& w.missing@.to_multiset() == walk_codes(entities@, present@, false, false, n).to_multiset()
        },
{
    let ghost es = entities@;
    let ghost ps = present@;
    let mut contributing: Vec<String> = Vec::new();
    let mut deferred: Vec<String> = Vec::new();
    let mut missing: Vec<String> = Vec::new();
    let mut i: usize = 0;
    while i < entities.len()
        invariant
            es == entities@,
            ps == present@,
            ps.len() == es.len(),
            i <= es.len(),
            contributing@ == walk_codes(es, ps, true, true, i as int),
            deferred@ == walk_codes(es, ps, true, false, i as int),
            missing@ == walk_codes(es, ps, false, false, i as int),
            tolerate_missing_shards || forall|j: int| 0 <= j < i ==> #[trigger] ps[j],
        decreases entities.len() - i,
    {
        let e = &entities[i];
        if !present[i] {
            if !tolerate_missing_shards {
                let msg = "run_aggregate: missing shard archive for `".to_string().concat(e.code.as_str()).concat("`");
                return Err(GroupError::Aggregate(msg));
            }
            missing.push(e.code.clone());
        } else if e.consolidation_method == ConsolidationMethod::Parent || e.consolidation_method
            == ConsolidationMethod::Full {
            contributing.push(e.code.clone());
        } else {
            deferred.push(e.code.clone());
        }
        i = i + 1;
    }
    let missing = sort_keyed(missing);
    Ok(WalkPlan { contributing, deferred, missing })
}

/// Knobs of an aggregate run.  The default is the production contract: no
/// prior period, and a missing shard archive is an error.
#[derive(Debug, Clone)]
pub struct AggregateOptions {
    /// The output directory of a prior period, whose closing NCI,
    /// equity-method and CTA balances open this period.
    pub prior_period_aggregate: Option<String>,
    /// Whether a missing shard archive is skipped (and reported) rather
    /// than failing the run.
    pub tolerate_missing_shards: bool,
}

impl Default for AggregateOptions {
    fn default() -> (r: AggregateOptions)
        ensures
            r.prior_period_aggregate is None,
            !r.tolerate_missing_shards,
    {
        AggregateOptions { prior_period_aggregate: None, tolerate_missing_shards: false }
    }
}

/// The accounting framework a group reports under.
#[derive(Debug, Clone, Copy, PartialEq, Eq, Structural)]
pub enum AccountingFramework {
    UsGaap,
    Ifrs,
    DualReporting,
    FrenchGaap,
    GermanGaap,
}

/// The framework a lower-cased label names; US GAAP for any other label.
pub open spec fn framework_of_label(l: Seq<char>) -> AccountingFramework {
    if l == "ifrs"@ {
        AccountingFramework::Ifrs
    } else if l == "us_gaap"@ || l == "usgaap"@ || l == "us-gaap"@ {
        AccountingFramework::UsGaap
    } else if l == "dual_reporting"@ || l == "dual"@ {
        AccountingFramework::DualReporting
    } else if l == "french_gaap"@ || l == "frenchgaap"@ || l == "pcg"@ {
        AccountingFramework::FrenchGaap
    } else if l == "german_gaap"@ || l == "germangaap"@ || l == "hgb"@ {
        AccountingFramework::GermanGaap
    } else {
        AccountingFramework::UsGaap
    }
}

/// The framework of the manifest's primary chart of accounts, its label
/// matched case-insensitively.
pub fn resolve_primary_framework(manifest: &GroupManifest) -> (r: AccountingFramework)
    ensures
        r == framework_of_label(lowercase(manifest.chart_of_accounts_master.primary_framework@)),
{
    let label = to_lowercase(manifest.chart_of_accounts_master.primary_framework.as_str());
    let l = label.as_str();
    if str_eq(l, "ifrs") {
        AccountingFramework::Ifrs
    } else if str_eq(l, "us_gaap") || str_eq(l, "usgaap") || str_eq(l, "us-gaap") {
        AccountingFramework::UsGaap
    } else if str_eq(l, "dual_reporting") || str_eq(l, "dual") {
        AccountingFramework::DualReporting
    } else if str_eq(l, "french_gaap") || str_eq(l, "frenchgaap") || str_eq(l, "pcg") {
        AccountingFramework::FrenchGaap
    } else if str_eq(l, "german_gaap") || str_eq(l, "germangaap") || str_eq(l, "hgb") {
        AccountingFramework::GermanGaap
    } else {
        AccountingFramework::UsGaap
    }
}

// ── Opening balances ─────────────────────────────────────────────────────

/// Some entity code occurs twice.
pub open spec fn has_duplicate_key(rows: Seq<(String, Dec)>) -> bool {
    exists|i: int, j: int| 0 <= i < j < rows.len() && #[trigger] rows[i].0@ == #[trigger] rows[j].0@
}

/// The closing balances of a prior period, one per entity, as a map from
/// entity code to balance (sorted by code).  `Err` exactly when an entity
/// occurs twice.
pub fn opening_balance_map(rows: &[(String, Dec)]) -> (r: Result<Vec<(String, Dec)>, GroupError>)
    ensures
        r is Err <==> has_duplicate_key(rows@),
        r matches Ok(m) ==> sm_sorted(m@) && sm_map(m@) == sm_map(rows@),
{
    let mut m: Vec<(String, Dec)> = Vec::new();
    let mut i: usize = 0;
    while i < rows.len()
        invariant
            i <= rows@.len(),
            sm_sorted(m@),
            sm_map(m@) == sm_map(rows@.take(i as int)),
            !has_duplicate_key(rows@.take(i as int)),
        decreases rows.len() - i,
    {
        let ghost t = rows@.take(i as int);
        let ghost t1 = rows@.take(i + 1);
        proof {
            assert(t1.drop_last() =~= t);
            assert(t1.last() == rows@[i as int]);
            lemma_sm_contains_iff(t, rows@[i as int].0@);
        }
        let (found, _) = sm_find(&m, rows[i].0.as_str());
        if found {
            proof {
                let j = choose|j: int| 0 <= j < t.len() && #[trigger] t[j].0@ == rows@[i as int].0@;
                assert(rows@[j].0@ == rows@[i as int].0@);
                assert(has_duplicate_key(rows@));
            }
            let msg = "opening balances: duplicate entity `".to_string().concat(rows[i].0.as_str()).concat("`");
            return Err(GroupError::Aggregate(msg));
        }
        sm_upsert(&mut m, rows[i].0.clone(), rows[i].1);
        proof {
            assert forall|a: int, b: int| 0 <= a < b < t1.len() implies #[trigger] t1[a].0@ != #[trigger] t1[b].0@ by {
                if b == i {
                    assert(t[a].0@ == t1[a].0@);
                } else {
                    assert(t[a] == t1[a] && t[b] == t1[b]);
                }
            }
        }
        i = i + 1;
    }
    proof {
        assert(rows@.take(i as int) =~= rows@);
        if has_duplicate_key(rows@) {
            let (a, b) = choose|a: int, b: int| 0 <= a < b < rows@.len() && #[trigger] rows@[a].0@ == #[trigger] rows@[b].0@;
            assert(rows@.take(i as int)[a] == rows@[a]);
            assert(rows@.take(i as int)[b] == rows@[b]);
        }
    }
    Ok(m)
}

/// The opening balance of `code`: its entry in the map, zero when absent.
pub open spec fn opening_of(m: Seq<(String, Dec)>, code: Seq<char>) -> Dec {
    if sm_map(m).contains_key(code) {
        sm_map(m)[code]
    } else {
        Dec::zero_spec()
    }
}

proof fn lemma_unique_key_value(rows: Seq<(String, Dec)>, i: int)
    requires
        !has_duplicate_key(rows),
        0 <= i < rows.len(),
    ensures
        sm_map(rows).contains_key(rows[i].0@),
        sm_map(rows)[rows[i].0@] == rows[i].1,
    decreases rows.len(),
{
    if i < rows.len() - 1 {
        assert(!has_duplicate_key(rows.drop_last())) by {
            if has_duplicate_key(rows.drop_last()) {
                let (a, b) = choose|a: int, b: int| 0 <= a < b < rows.drop_last().len()
                    && #[trigger] rows.drop_last()[a].0@ == #[trigger] rows.drop_last()[b].0@;
                assert(rows[a].0@ == rows[b].0@);
            }
        }
        lemma_unique_key_value(rows.drop_last(), i);
        assert(rows[i].0@ != rows.last().0@);
    }
}

/// What one period closes, the next opens: when the prior period's
/// closing balances name each entity once, the opening balance read for
/// an entity from their map is the closing balance recorded for it.
pub proof fn law_opening_is_prior_closing(rows: Seq<(String, Dec)>, m: Seq<(String, Dec)>, i: int)
    requires
        !has_duplicate_key(rows),
        sm_map(m) == sm_map(rows),
        0 <= i < rows.len(),
    ensures
        opening_of(m, rows[i].0@) == rows[i].1,
{
    lemma_unique_key_value(rows, i);
}

/// Look up the opening balance of `code`, zero when the map lacks it.
pub fn opening_for(m: &Vec<(String, Dec)>, code: &str) -> (r: Dec)
    requires
        sm_sorted(m@),
    ensures
        r == opening_of(m@, code@),
{
    let (found, i) = sm_find(m, code);
    if found {
        proof {
            crate::sorted_map::lemma_sm_at(m@, i as int);
        }
        m[i].1
    } else {
        Dec::zero()
    }
}

// ── Net income, OCI and dividends ────────────────────────────────────────

/// A translated line's amount signed debit-positive.
pub open spec fn signed_translated(l: TranslatedLine) -> int {
    if l.local_dr_cr == DrCr::Debit {
        l.translated_amount.units()
    } else {
        -l.translated_amount.units()
    }
}

/// A revenue or expense line.
pub open spec fn is_pl(t: TranslationAccountType) -> bool {
    t == TranslationAccountType::PlRevenue || t == TranslationAccountType::PlExpense
}

/// Net income of translated lines: the negated signed amount of every
/// revenue and expense line, summed (profit positive).
pub open spec fn translated_net_income(v: Seq<TranslatedLine>) -> int
    decreases v.len(),
{
    if v.len() == 0 {
        0
    } else {
        translated_net_income(v.drop_last()) + if is_pl(v.last().account_type) {
            -signed_translated(v.last())
        } else {
            0
        }
    }
}

/// OCI of translated lines: the negated signed amount of every OCI line.
pub open spec fn translated_oci(v: Seq<TranslatedLine>) -> int
    decreases v.len(),
{
    if v.len() == 0 {
        0
    } else {
        translated_oci(v.drop_last()) + if v.last().account_type == TranslationAccountType::PlOci {
            -signed_translated(v.last())
        } else {
            0
        }
    }
}

proof fn lemma_translated_sums_bounded(v: Seq<TranslatedLine>)
    ensures
        abs(translated_net_income(v)) <= translated_abs(v),
        abs(translated_oci(v)) <= translated_abs(v),
    decreases v.len(),
{
    if v.len() > 0 {
        lemma_translated_sums_bounded(v.drop_last());
    }
}

/// Subtract the signed amount of `l` from `acc`: add a credit, subtract a
/// debit.
fn minus_signed(acc: Dec, l: &TranslatedLine, bound: Ghost<int>, sc: Ghost<nat>) -> (r: Dec)
    requires
        abs(acc.units() - signed_translated(*l)) <= bound@,
        fits_at(bound@, sc@),
        acc.spec_scale() <= sc@,
        l.translated_amount.spec_scale() <= sc@,
    ensures
        r.units() == acc.units() - signed_translated(*l),
        r.spec_scale() <= sc@,
{
    proof {
        lemma_bounded_fits(acc.units() - signed_translated(*l), bound@, sc@, max_nat(acc.spec_scale(), l.translated_amount.spec_scale()));
    }
    let next = match l.local_dr_cr {
        DrCr::Debit => dec_sub(acc, l.translated_amount),
        DrCr::Credit => dec_add(acc, l.translated_amount),
    };
    match next {
        Some(x) => x,
        None => acc,
    }
}

/// The period net income of a translated trial balance: revenue less
/// expenses, profit positive.
pub fn net_income_from_translated(translated: &TranslatedTb) -> (r: Dec)
    requires
        translated_fits(translated.lines@),
    ensures
        r.units() == translated_net_income(translated.lines@),
{
    let ghost v = translated.lines@;
    let mut net = Dec::zero();
    let mut i: usize = 0;
    while i < translated.lines.len()
        invariant
            v == translated.lines@,
            i <= v.len(),
            translated_fits(v),
            net.units() == translated_net_income(v.take(i as int)),
            net.spec_scale() <= translated_scale(v),
        decreases translated.lines.len() - i,
    {
        proof {
            lemma_translated_prefix(v, i as int);
            assert(v.take(i + 1).drop_last() =~= v.take(i as int));
            assert(v.take(i + 1).last() == v[i as int]);
            lemma_translated_sums_bounded(v.take(i + 1));
        }
        let l = &translated.lines[i];
        if l.account_type == TranslationAccountType::PlRevenue || l.account_type == TranslationAccountType::PlExpense {
            net = minus_signed(net, l, Ghost(translated_abs(v)), Ghost(translated_scale(v)));
        }
        i = i + 1;
    }
    proof {
        assert(v.take(i as int) =~= v);
    }
    net
}

/// The period OCI of a translated trial balance, gains positive.
pub fn oci_from_translated(translated: &TranslatedTb) -> (r: Dec)
    requires
        translated_fits(translated.lines@),
    ensures
        r.units() == translated_oci(translated.lines@),
{
    let ghost v = translated.lines@;
    let mut oci = Dec::zero();
    let mut i: usize = 0;
    while i < translated.lines.len()
        invariant
            v == translated.lines@,
            i <= v.len(),
            translated_fits(v),
            oci.units() == translated_oci(v.take(i as int)),
            oci.spec_scale() <= translated_scale(v),
        decreases translated.lines.len() - i,
    {
        proof {
            lemma_translated_prefix(v, i as int);
            assert(v.take(i + 1).drop_last() =~= v.take(i as int));
            assert(v.take(i + 1).last() == v[i as int]);
            lemma_translated_sums_bounded(v.take(i + 1));
        }
        let l = &translated.lines[i];
        if l.account_type == TranslationAccountType::PlOci {
            oci = minus_signed(oci, l, Ghost(translated_abs(v)), Ghost(translated_scale(v)));
        }
        i = i + 1;
    }
    proof {
        assert(v.take(i as int) =~= v);
    }
    oci
}

/// Net income of untranslated lines, `types[k]` being the translation
/// type of line `k`: credit less debit over the revenue and expense lines.
pub open spec fn tb_net_income(lines: Seq<TrialBalanceLine>, types: Seq<TranslationAccountType>) -> int
    decreases lines.len(),
{
    if lines.len() == 0 {
        0
    } else {
        tb_net_income(lines.drop_last(), types) + if is_pl(types[lines.len() - 1]) {
            lines.last().credit_balance.units() - lines.last().debit_balance.units()
        } else {
            0
        }
    }
}

/// The debit and credit balances of the lines sum exactly.
pub open spec fn tb_lines_fit(lines: Seq<TrialBalanceLine>) -> bool {
    fits_at(tb_lines_abs(lines), tb_lines_scale(lines))
}

/// Whether the lines' debits and credits are summed exactly: the check a
/// caller makes before asking for a trial balance's net income or
/// dividends.
pub fn tb_lines_fit_check(lines: &Vec<TrialBalanceLine>) -> (r: bool)
    ensures
        r == tb_lines_fit(lines@),
{
    let ghost ls = lines@;
    let mut amounts: Vec<Dec> = Vec::new();
    let mut i: usize = 0;
    while i < lines.len()
        invariant
            ls == lines@,
            i <= ls.len(),
            abs_sum(amounts@) == tb_lines_abs(ls.take(i as int)),
            max_scale(amounts@) == tb_lines_scale(ls.take(i as int)),
        decreases lines.len() - i,
    {
        let ghost a0 = amounts@;
        amounts.push(lines[i].debit_balance);
        let ghost a1 = amounts@;
        amounts.push(lines[i].credit_balance);
        proof {
            assert(amounts@.drop_last() =~= a1);
            assert(a1.drop_last() =~= a0);
            assert(abs_sum(a1) == abs_sum(a0) + abs(ls[i as int].debit_balance.units()));
            assert(abs_sum(amounts@) == abs_sum(a1) + abs(ls[i as int].credit_balance.units()));
            assert(max_scale(a1) == max_nat(max_scale(a0), ls[i as int].debit_balance.spec_scale()));
            assert(max_scale(amounts@) == max_nat(max_scale(a1), ls[i as int].credit_balance.spec_scale()));
            assert(ls.take(i + 1).drop_last() =~= ls.take(i as int));
            assert(ls.take(i + 1).last() == ls[i as int]);
        }
        i = i + 1;
    }
    proof {
        assert(ls.take(i as int) =~= ls);
    }
    magnitudes_fit(&amounts)
}

proof fn lemma_tb_net_income_bounded(lines: Seq<TrialBalanceLine>, types: Seq<TranslationAccountType>)
    ensures
        abs(tb_net_income(lines, types)) <= tb_lines_abs(lines),
    decreases lines.len(),
{
    if lines.len() > 0 {
        lemma_tb_net_income_bounded(lines.drop_last(), types);
    }
}

/// The period net income of an untranslated trial balance, `line_types[k]`
/// being the translation type of line `k`: revenue adds credit less debit,
/// an expense subtracts debit less credit.
pub fn net_income_from_tb(lines: &Vec<TrialBalanceLine>, line_types: &[TranslationAccountType]) -> (r: Dec)
    requires
        line_types@.len() == lines@.len(),
        tb_lines_fit(lines@),
    ensures
        r.units() == tb_net_income(lines@, line_types@),
{
    let ghost v = lines@;
    let ghost b = tb_lines_abs(v);
    let ghost sc = tb_lines_scale(v);
    let mut net = Dec::zero();
    let mut i: usize = 0;
    while i < lines.len()
        invariant
            v == lines@,
            i <= v.len(),
            line_types@.len() == v.len(),
            b == tb_lines_abs(v),
            sc == tb_lines_scale(v),
            fits_at(b, sc),
            net.units() == tb_net_income(v.take(i as int), line_types@),
            net.spec_scale() <= sc,
        decreases lines.len() - i,
    {
        proof {
            lemma_tb_lines_prefix(v, i as int);
            assert(v.take(i + 1).drop_last() =~= v.take(i as int));
            assert(v.take(i + 1).last() == v[i as int]);
            lemma_tb_net_income_bounded(v.take(i + 1), line_types@);
        }
        let l = &lines[i];
        let ty = line_types[i];
        if ty == TranslationAccountType::PlRevenue {
            let d = l.debit_balance;
            let c = l.credit_balance;
            proof {
                lemma_bounded_fits(c.units() - d.units(), b, sc, max_nat(c.spec_scale(), d.spec_scale()));
            }
            let x = match dec_sub(c, d) { Some(x) => x, None => c };
            proof {
                lemma_bounded_fits(net.units() + x.units(), b, sc, max_nat(net.spec_scale(), x.spec_scale()));
            }
            net = match dec_add(net, x) { Some(y) => y, None => net };
        } else if ty == TranslationAccountType::PlExpense {
            let d = l.debit_balance;
            let c = l.credit_balance;
            proof {
                lemma_bounded_fits(d.units() - c.units(), b, sc, max_nat(d.spec_scale(), c.spec_scale()));
            }
            let x = match dec_sub(d, c) { Some(x) => x, None => d };
            proof {
                lemma_bounded_fits(net.units() - x.units(), b, sc, max_nat(net.spec_scale(), x.spec_scale()));
            }
            net = match dec_sub(net, x) { Some(y) => y, None => net };
        }
        i = i + 1;
    }
    proof {
        assert(v.take(i as int) =~= v);
    }
    net
}

/// Dividends paid on the lines: debit less credit over the lines booked
/// to the dividends-paid account `code`.
pub open spec fn tb_dividends(lines: Seq<TrialBalanceLine>, code: Seq<char>) -> int
    decreases lines.len(),
{
    if lines.len() == 0 {
        0
    } else {
        tb_dividends(lines.drop_last(), code) + if lines.last().account_code@ == code {
            lines.last().debit_balance.units() - lines.last().credit_balance.units()
        } else {
            0
        }
    }
}

proof fn lemma_tb_dividends_bounded(lines: Seq<TrialBalanceLine>, code: Seq<char>)
    ensures
        abs(tb_dividends(lines, code)) <= tb_lines_abs(lines),
    decreases lines.len(),
{
    if lines.len() > 0 {
        lemma_tb_dividends_bounded(lines.drop_last(), code);
    }
}

/// The dividends paid in a trial balance: debit less credit on the
/// dividends-paid account `dividends_paid_code`, summed.
pub fn dividends_from_tb(lines: &Vec<TrialBalanceLine>, dividends_paid_code: &str) -> (r: Dec)
    requires
        tb_lines_fit(lines@),
    ensures
        r.units() == tb_dividends(lines@, dividends_paid_code@),
{
    let ghost v = lines@;
    let ghost b = tb_lines_abs(v);
    let ghost sc = tb_lines_scale(v);
    let mut total = Dec::zero();
    let mut i: usize = 0;
    while i < lines.len()
        invariant
            v == lines@,
            i <= v.len(),
            b == tb_lines_abs(v),
            sc == tb_lines_scale(v),
            fits_at(b, sc),
            total.units() == tb_dividends(v.take(i as int), dividends_paid_code@),
            total.spec_scale() <= sc,
        decreases lines.len() - i,
    {
        proof {
            lemma_tb_lines_prefix(v, i as int);
            assert(v.take(i + 1).drop_last() =~= v.take(i as int));
            assert(v.take(i + 1).last() == v[i as int]);
            lemma_tb_dividends_bounded(v.take(i + 1), dividends_paid_code@);
        }
        let l = &lines[i];
        if str_eq(l.account_code.as_str(), dividends_paid_code) {
            let d = l.debit_balance;
            let c = l.credit_balance;
            proof {
                lemma_bounded_fits(d.units() - c.units(), b, sc, max_nat(d.spec_scale(), c.spec_scale()));
            }
            let x = match dec_sub(d, c) { Some(x) => x, None => d };
            proof {
                lemma_bounded_fits(total.units() + x.units(), b, sc, max_nat(total.spec_scale(), x.spec_scale()));
            }
            total = match dec_add(total, x) { Some(y) => y, None => total };
        }
        i = i + 1;
    }
    proof {
        assert(v.take(i as int) =~= v);
    }
    total
}

// ── Per-entity steps ─────────────────────────────────────────────────────

/// The elements of `s` that satisfy `p`, in order.
pub open spec fn keep<T>(s: Seq<T>, p: spec_fn(T) -> bool) -> Seq<T>
    decreases s.len(),
{
    if s.len() == 0 {
        Seq::empty()
    } else if p(s.last()) {
        keep(s.drop_last(), p).push(s.last())
    } else {
        keep(s.drop_last(), p)
    }
}

/// What is kept of a prefix is a prefix of what is kept of the whole.
pub proof fn lemma_keep_prefix<T>(s: Seq<T>, p: spec_fn(T) -> bool, i: int)
    requires
        0 <= i <= s.len(),
    ensures
        keep(s.take(i), p).len() <= keep(s, p).len(),
        forall|j: int| 0 <= j < keep(s.take(i), p).len() ==> #[trigger] keep(s.take(i), p)[j] == keep(s, p)[j],
    decreases s.len(),
{
    if i == s.len() {
        assert(s.take(i) =~= s);
    } else {
        lemma_keep_prefix(s.drop_last(), p, i);
        assert(s.drop_last().take(i) =~= s.take(i));
    }
}

/// Index of the last element of `es` with entity code `code`; -1 when none.
pub open spec fn last_entity_index(es: Seq<ManifestEntity>, code: Seq<char>) -> int
    decreases es.len(),
{
    if es.len() == 0 {
        -1
    } else if es.last().code@ == code {
        es.len() - 1
    } else {
        last_entity_index(es.drop_last(), code)
    }
}

proof fn lemma_last_entity_index(es: Seq<ManifestEntity>, code: Seq<char>)
    ensures
        -1 <= last_entity_index(es, code) < es.len(),
        last_entity_index(es, code) >= 0 ==> es[last_entity_index(es, code)].code@ == code,
    decreases es.len(),
{
    if es.len() > 0 {
        lemma_last_entity_index(es.drop_last(), code);
    }
}

/// The last entity of `es` with code `code`, if any.
fn find_last_entity(es: &Vec<ManifestEntity>, code: &str) -> (r: Option<usize>)
    ensures
        r is None <==> last_entity_index(es@, code@) < 0,
        r matches Some(k) ==> k == last_entity_index(es@, code@),
{
    let mut found: Option<usize> = None;
    let mut i: usize = 0;
    while i < es.len()
        invariant
            i <= es@.len(),
            found is None <==> last_entity_index(es@.take(i as int), code@) < 0,
            found matches Some(k) ==> k == last_entity_index(es@.take(i as int), code@),
        decreases es.len() - i,
    {
        proof {
            assert(es@.take(i + 1).drop_last() =~= es@.take(i as int));
            lemma_last_entity_index(es@.take(i as int), code@);
        }
        if str_eq(es[i].code.as_str(), code) {
            found = Some(i);
        }
        i = i + 1;
    }
    proof {
        assert(es@.take(i as int) =~= es@);
    }
    found
}

/// Index of the last translated trial balance of entity `code`; -1 when none.
pub open spec fn last_translated_index(ts: Seq<TranslatedTb>, code: Seq<char>) -> int
    decreases ts.len(),
{
    if ts.len() == 0 {
        -1
    } else if ts.last().entity_code@ == code {
        ts.len() - 1
    } else {
        last_translated_index(ts.drop_last(), code)
    }
}

proof fn lemma_last_translated_index(ts: Seq<TranslatedTb>, code: Seq<char>)
    ensures
        -1 <= last_translated_index(ts, code) < ts.len(),
        last_translated_index(ts, code) >= 0 ==> ts[last_translated_index(ts, code)].entity_code@ == code,
    decreases ts.len(),
{
    if ts.len() > 0 {
        lemma_last_translated_index(ts.drop_last(), code);
    }
}

fn find_last_translated(ts: &[TranslatedTb], code: &str) -> (r: Option<usize>)
    ensures
        r is None <==> last_translated_index(ts@, code@) < 0,
        r matches Some(k) ==> k == last_translated_index(ts@, code@),
{
    let mut found: Option<usize> = None;
    let mut i: usize = 0;
    while i < ts.len()
        invariant
            i <= ts@.len(),
            found is None <==> last_translated_index(ts@.take(i as int), code@) < 0,
            found matches Some(k) ==> k == last_translated_index(ts@.take(i as int), code@),
        decreases ts.len() - i,
    {
        proof {
            assert(ts@.take(i + 1).drop_last() =~= ts@.take(i as int));
            lemma_last_translated_index(ts@.take(i as int), code@);
        }
        if str_eq(ts[i].entity_code.as_str(), code) {
            found = Some(i);
        }
        i = i + 1;
    }
    proof {
        assert(ts@.take(i as int) =~= ts@);
    }
    found
}

/// Index of the last `(code, tb)` entry of `tbs` for entity `code`; -1 when
/// none.
pub open spec fn last_tb_index(tbs: Seq<(String, TrialBalance)>, code: Seq<char>) -> int
    decreases tbs.len(),
{
    if tbs.len() == 0 {
        -1
    } else if tbs.last().0@ == code {
        tbs.len() - 1
    } else {
        last_tb_index(tbs.drop_last(), code)
    }
}

proof fn lemma_last_tb_index(tbs: Seq<(String, TrialBalance)>, code: Seq<char>)
    ensures
        -1 <= last_tb_index(tbs, code) < tbs.len(),
        last_tb_index(tbs, code) >= 0 ==> tbs[last_tb_index(tbs, code)].0@ == code,
    decreases tbs.len(),
{
    if tbs.len() > 0 {
        lemma_last_tb_index(tbs.drop_last(), code);
    }
}

fn find_last_tb(tbs: &[(String, TrialBalance)], code: &str) -> (r: Option<usize>)
    ensures
        r is None <==> last_tb_index(tbs@, code@) < 0,
        r matches Some(k) ==> k == last_tb_index(tbs@, code@),
{
    let mut found: Option<usize> = None;
    let mut i: usize = 0;
    while i < tbs.len()
        invariant
            i <= tbs@.len(),
            found is None <==> last_tb_index(tbs@.take(i as int), code@) < 0,
            found matches Some(k) ==> k == last_tb_index(tbs@.take(i as int), code@),
        decreases tbs.len() - i,
    {
        proof {
            assert(tbs@.take(i + 1).drop_last() =~= tbs@.take(i as int));
            lemma_last_tb_index(tbs@.take(i as int), code@);
        }
        if str_eq(tbs[i].0.as_str(), code) {
            found = Some(i);
        }
        i = i + 1;
    }
    proof {
        assert(tbs@.take(i as int) =~= tbs@);
    }
    found
}

/// Each entry of `tbs` has a line type per line.
pub open spec fn line_types_fit(tbs: Seq<(String, TrialBalance)>, types: Seq<Vec<TranslationAccountType>>) -> bool {
    &&& types.len() == tbs.len()
    &&& forall|k: int| 0 <= k < tbs.len() ==> (#[trigger] types[k])@.len() == tbs[k].1.lines@.len()
}

/// The functional currency of the manifest entity `code` names (the last
/// one of that code).
pub open spec fn functional_of(es: Seq<ManifestEntity>, code: Seq<char>) -> Seq<char> {
    es[last_entity_index(es, code)].functional_currency@
}

/// Translate every contributing entity's trial balance into the
/// presentation currency, `line_types[k]` typing the lines of entry `k`.
/// `Err` when an entity is not in the manifest, when a rate it needs is
/// missing, or when a decimal operation fails.
/// Every contributing entity is in the manifest and its translation fits
/// (see [`translation_fits`]): the translations then all succeed.
pub open spec fn all_translations_fit(
    es: Seq<ManifestEntity>,
    tbs: Seq<(String, TrialBalance)>,
    types: Seq<Vec<TranslationAccountType>>,
    master: FxRateMaster,
    pc: Seq<char>,
) -> bool {
    forall|k: int| 0 <= k < tbs.len() ==> {
        &&& last_entity_index(es, (#[trigger] tbs[k]).0@) >= 0
        &&& translation_fits(tbs[k].1.lines@, types[k]@, master, functional_of(es, tbs[k].0@) + "/"@ + pc,
            functional_of(es, tbs[k].0@) == pc)
    }
}

pub fn translate_all_contributing(
    contributing_tbs: &[(String, TrialBalance)],
    line_types: &[Vec<TranslationAccountType>],
    manifest: &GroupManifest,
) -> (r: Result<Vec<TranslatedTb>, GroupError>)
    requires
        line_types_fit(contributing_tbs@, line_types@),
        fx_master_wf(manifest.fx_rate_master),
    ensures
        ({
            let es = manifest.ownership_graph.entities@;
            let tbs = contributing_tbs@;
            &&& (exists|k: int| 0 <= k < tbs.len() && last_entity_index(es, (#[trigger] tbs[k]).0@) < 0) ==> r is Err
            &&& (exists|k: int| 0 <= k < tbs.len() && last_entity_index(es, (#[trigger] tbs[k]).0@) >= 0
                && missing_rate(tbs[k].1.lines@, line_types@[k]@, manifest.fx_rate_master,
                    functional_of(es, tbs[k].0@) + "/"@ + manifest.presentation_currency@,
                    functional_of(es, tbs[k].0@) == manifest.presentation_currency@)) ==> r is Err
            &&& all_translations_fit(es, tbs, line_types@, manifest.fx_rate_master, manifest.presentation_currency@)
                ==> r is Ok
            &&& r matches Ok(v) ==> {
                &&& v@.len() == tbs.len()
                &&& forall|k: int| 0 <= k < tbs.len() ==> {
                    &&& last_entity_index(es, (#[trigger] tbs[k]).0@) >= 0
                    &&& translation_of(v@[k], tbs[k].1, line_types@[k]@, functional_of(es, tbs[k].0@),
                        manifest.fx_rate_master, manifest.presentation_currency@)
                }
            }
        }),
{
    let ghost es = manifest.ownership_graph.entities@;
    let ghost tbs = contributing_tbs@;
    let ghost ok = all_translations_fit(es, tbs, line_types@, manifest.fx_rate_master, manifest.presentation_currency@);
    let mut out: Vec<TranslatedTb> = Vec::new();
    let mut i: usize = 0;
    while i < contributing_tbs.len()
        invariant
            ok == all_translations_fit(es, tbs, line_types@, manifest.fx_rate_master, manifest.presentation_currency@),
            tbs == contributing_tbs@,
            es == manifest.ownership_graph.entities@,
            i <= tbs.len(),
            line_types_fit(tbs, line_types@),
            fx_master_wf(manifest.fx_rate_master),
            out@.len() == i,
            forall|k: int| 0 <= k < i ==> {
                &&& last_entity_index(es, (#[trigger] tbs[k]).0@) >= 0
                &&& !missing_rate(tbs[k].1.lines@, line_types@[k]@, manifest.fx_rate_master,
                    functional_of(es, tbs[k].0@) + "/"@ + manifest.presentation_currency@,
                    functional_of(es, tbs[k].0@) == manifest.presentation_currency@)
                &&& translation_of(out@[k], tbs[k].1, line_types@[k]@, functional_of(es, tbs[k].0@),
                    manifest.fx_rate_master, manifest.presentation_currency@)
            },
        decreases contributing_tbs.len() - i,
    {
        let code = contributing_tbs[i].0.as_str();
        proof {
            if ok {
                assert(last_entity_index(es, tbs[i as int].0@) >= 0);
            }
        }
        let idx = match find_last_entity(&manifest.ownership_graph.entities, code) {
            Some(k) => k,
            None => {
                let msg = "run_aggregate: entity `".to_string().concat(code).concat("` not in manifest's ownership graph");
                return Err(GroupError::Aggregate(msg));
            },
        };
        proof {
            lemma_last_entity_index(es, tbs[i as int].0@);
            assert(line_types@[i as int]@.len() == tbs[i as int].1.lines@.len());
        }
        let functional_ccy = manifest.ownership_graph.entities[idx].functional_currency.as_str();
        let translated = translate_entity_tb(
            &contributing_tbs[i].1,
            line_types[i].as_slice(),
            functional_ccy,
            &manifest.fx_rate_master,
            manifest.period.end,
            manifest.presentation_currency.as_str(),
        )?;
        out.push(translated);
        i = i + 1;
    }
    Ok(out)
}

/// The translated trial balances that need a CTA: those whose functional
/// currency is not `pc`.
pub open spec fn cta_subjects(ts: Seq<TranslatedTb>, pc: Seq<char>) -> Seq<TranslatedTb> {
    keep(ts, not_in_currency(pc))
}

/// Whether a translated trial balance's functional currency is not `pc`.
pub open spec fn not_in_currency(pc: Seq<char>) -> spec_fn(TranslatedTb) -> bool {
    |t: TranslatedTb| t.functional_currency@ != pc
}

/// `c` rolls the CTA of `t` forward from its opening balance in `opening`.
pub open spec fn cta_matches(c: CtaRollforward, t: TranslatedTb, opening: Seq<(String, Dec)>) -> bool {
    let o = opening_of(opening, t.entity_code@);
    &&& c.entity_code@ == t.entity_code@
    &&& c.functional_currency@ == t.functional_currency@
    &&& c.presentation_currency@ == t.presentation_currency@
    &&& c.opening_cta == o
    &&& c.period_cta == t.cta
    &&& fits_sum(o, t.cta, o.units() + t.cta.units()) ==> c.closing_cta.units() == o.units() + t.cta.units()
}

/// Opening plus period CTA is exact for every subject.
pub open spec fn cta_all_fit(ts: Seq<TranslatedTb>, pc: Seq<char>, opening: Seq<(String, Dec)>) -> bool {
    forall|j: int| 0 <= j < cta_subjects(ts, pc).len() ==> {
        let t = #[trigger] cta_subjects(ts, pc)[j];
        let o = opening_of(opening, t.entity_code@);
        fits_sum(o, t.cta, o.units() + t.cta.units())
    }
}

/// One CTA rollforward per translated trial balance not already in the
/// presentation currency, in order, each opening from its entity's
/// balance in `opening` (zero when absent).  `Err` only on a decimal
/// overflow, which [`cta_all_fit`] rules out.
pub fn build_cta_rollforwards(
    translated_tbs: &[TranslatedTb],
    presentation_currency: &str,
    opening: &Vec<(String, Dec)>,
) -> (r: Result<Vec<CtaRollforward>, GroupError>)
    requires
        sm_sorted(opening@),
    ensures
        cta_all_fit(translated_tbs@, presentation_currency@, opening@) ==> r is Ok,
        r matches Ok(v) ==> {
            let subj = cta_subjects(translated_tbs@, presentation_currency@);
            &&& v@.len() == subj.len()
            &&& forall|j: int| 0 <= j < subj.len() ==> cta_matches(#[trigger] v@[j], subj[j], opening@)
        },
{
    let ghost ts = translated_tbs@;
    let ghost pc = presentation_currency@;
    let ghost p = not_in_currency(pc);
    let mut rolls: Vec<CtaRollforward> = Vec::new();
    let mut i: usize = 0;
    while i < translated_tbs.len()
        invariant
            ts == translated_tbs@,
            pc == presentation_currency@,
            p == not_in_currency(pc),
            sm_sorted(opening@),
            i <= ts.len(),
            rolls@.len() == keep(ts.take(i as int), p).len(),
            forall|j: int| 0 <= j < rolls@.len() ==> cta_matches(#[trigger] rolls@[j], keep(ts.take(i as int), p)[j], opening@),
        decreases translated_tbs.len() - i,
    {
        proof {
            assert(ts.take(i + 1).drop_last() =~= ts.take(i as int));
            assert(ts.take(i + 1).last() == ts[i as int]);
        }
        let t = &translated_tbs[i];
        if !str_eq(t.functional_currency.as_str(), presentation_currency) {
            let o = opening_for(opening, t.entity_code.as_str());
            let roll = match cta_rollforward(
                t.entity_code.as_str(),
                t.functional_currency.as_str(),
                t.presentation_currency.as_str(),
                o,
                t.cta,
            ) {
                Some(c) => c,
                None => {
                    proof {
                        lemma_keep_prefix(ts, p, i + 1);
                        let j = rolls@.len() as int;
                        assert(keep(ts.take(i + 1), p)[j] == ts[i as int]);
                        assert(cta_subjects(ts, pc)[j] == ts[i as int]);
                    }
                    return Err(GroupError::Aggregate("run_aggregate: CTA rollforward overflows".to_string()));
                },
            };
            rolls.push(roll);
        }
        i = i + 1;
    }
    proof {
        assert(ts.take(i as int) =~= ts);
    }
    Ok(rolls)
}

/// A subsidiary measured for NCI: fully consolidated, with an ownership
/// below one.
pub open spec fn is_nci_subject(e: ManifestEntity) -> bool {
    &&& e.consolidation_method == ConsolidationMethod::Full
    &&& e.ownership_percent matches Some(o) && o.units() < pow10(28)
}

/// The subsidiaries measured for NCI, in manifest order.
pub open spec fn nci_subjects(es: Seq<ManifestEntity>) -> Seq<ManifestEntity> {
    keep(es, nci_subject_pred())
}

/// [`is_nci_subject`] as a predicate.
pub open spec fn nci_subject_pred() -> spec_fn(ManifestEntity) -> bool {
    |e: ManifestEntity| is_nci_subject(e)
}

/// `rf` is the NCI rollforward of `e`, computed from the net income and
/// OCI of its translated trial balance `t`, no dividends and no ownership
/// change, opening from its balance in `opening`.
pub open spec fn nci_built(
    rf: NciRollforward,
    e: ManifestEntity,
    t: TranslatedTb,
    opening: Seq<(String, Dec)>,
    period: ManifestPeriod,
    currency: Seq<char>,
) -> bool {
    &&& rf.entity_code@ == e.code@
    &&& rf.parent_entity_code@ == e.parent_code->0@
    &&& rf.ownership_percent == e.ownership_percent->0
    &&& rf.period_end == period.end
    &&& rf.currency@ == currency
    &&& exists|i: NciInputs| #[trigger] nci_amounts_match(rf, i) && nci_inputs_for(i, e, t, opening, period, currency)
}

/// `i` holds the inputs of the NCI rollforward of `e`: the net income and
/// OCI of its translated trial balance `t` (whatever their scales), no
/// dividends, no ownership change, its opening balance in `opening`.
pub open spec fn nci_inputs_for(
    i: NciInputs,
    e: ManifestEntity,
    t: TranslatedTb,
    opening: Seq<(String, Dec)>,
    period: ManifestPeriod,
    currency: Seq<char>,
) -> bool {
    &&& *i.entity == e
    &&& i.period_net_income.units() == translated_net_income(t.lines@)
    &&& i.period_oci.units() == translated_oci(t.lines@)
    &&& i.total_dividends_paid == Dec::zero_spec()
    &&& i.opening_nci == opening_of(opening, e.code@)
    &&& i.acquisition_date_nci_fair_value is None
    &&& i.ownership_changes@.len() == 0
    &&& i.period_start == period.start
    &&& i.period_end == period.end
    &&& i.currency@ == currency
}

/// Every subsidiary measured for NCI has a translated trial balance and a
/// parent, and its rollforward computes exactly from any inputs built for
/// it ([`nci_computable`]): the rollforwards then all succeed.
pub open spec fn nci_owed(
    es: Seq<ManifestEntity>,
    ts: Seq<TranslatedTb>,
    opening: Seq<(String, Dec)>,
    period: ManifestPeriod,
    currency: Seq<char>,
) -> bool {
    let subj = nci_subjects(es);
    forall|j: int| 0 <= j < subj.len() ==> {
        &&& last_translated_index(ts, (#[trigger] subj[j]).code@) >= 0
        &&& subj[j].parent_code is Some
        &&& forall|i: NciInputs| nci_inputs_for(i, subj[j], ts[last_translated_index(ts, subj[j].code@)], opening, period, currency)
            ==> #[trigger] nci_computable(i)
    }
}

/// One NCI rollforward per subsidiary measured for NCI, in manifest
/// order, from its translated trial balance (the last one of its code)
/// and its opening balance in `opening` (zero when absent).  `Err` when
/// such a subsidiary has no translated trial balance or no parent, or
/// when the rollforward fails.
pub fn build_nci_rollforwards(
    manifest: &GroupManifest,
    translated_tbs: &[TranslatedTb],
    opening: &Vec<(String, Dec)>,
) -> (r: Result<Vec<NciRollforward>, GroupError>)
    requires
        sm_sorted(opening@),
        chrono_date(manifest.period.start),
        chrono_date(manifest.period.end),
        forall|k: int| 0 <= k < translated_tbs@.len() ==> translated_fits((#[trigger] translated_tbs@[k]).lines@),
    ensures
        ({
            let subj = nci_subjects(manifest.ownership_graph.entities@);
            let ts = translated_tbs@;
            &&& (exists|j: int| 0 <= j < subj.len() && last_translated_index(ts, (#[trigger] subj[j]).code@) < 0) ==> r is Err
            &&& (exists|j: int| 0 <= j < subj.len() && (#[trigger] subj[j]).parent_code is None) ==> r is Err
            &&& nci_owed(manifest.ownership_graph.entities@, ts, opening@, manifest.period, manifest.presentation_currency@)
                ==> r is Ok
            &&& r matches Ok(v) ==> {
                &&& v@.len() == subj.len()
                &&& forall|j: int| 0 <= j < subj.len() ==> {
                    &&& last_translated_index(ts, subj[j].code@) >= 0
                    &&& nci_built(#[trigger] v@[j], subj[j], ts[last_translated_index(ts, subj[j].code@)], opening@,
                        manifest.period, manifest.presentation_currency@)
                }
            }
        }),
{
    let ghost es = manifest.ownership_graph.entities@;
    let ghost ts = translated_tbs@;
    let ghost p = nci_subject_pred();
    let ghost ok = nci_owed(es, ts, opening@, manifest.period, manifest.presentation_currency@);
    let no_changes: Vec<OwnershipChangeEvent> = Vec::new();
    let one = Dec::one();
    let mut rolls: Vec<NciRollforward> = Vec::new();
    let mut i: usize = 0;
    while i < manifest.ownership_graph.entities.len()
        invariant
            es == manifest.ownership_graph.entities@,
            ts == translated_tbs@,
            p == nci_subject_pred(),
            ok == nci_owed(es, ts, opening@, manifest.period, manifest.presentation_currency@),
            no_changes@.len() == 0,
            one.units() == pow10(28),
            sm_sorted(opening@),
            chrono_date(manifest.period.start),
            chrono_date(manifest.period.end),
            forall|k: int| 0 <= k < ts.len() ==> translated_fits((#[trigger] ts[k]).lines@),
            i <= es.len(),
            rolls@.len() == keep(es.take(i as int), p).len(),
            forall|j: int| #![trigger rolls@[j]] #![trigger keep(es.take(i as int), p)[j]] 0 <= j < rolls@.len() ==> {
                let e = keep(es.take(i as int), p)[j];
                &&& e.parent_code is Some
                &&& last_translated_index(ts, e.code@) >= 0
                &&& nci_built(rolls@[j], e, ts[last_translated_index(ts, e.code@)], opening@,
                    manifest.period, manifest.presentation_currency@)
            },
        decreases manifest.ownership_graph.entities.len() - i,
    {
        proof {
            assert(es.take(i + 1).drop_last() =~= es.take(i as int));
            assert(es.take(i + 1).last() == es[i as int]);
            lemma_keep_prefix(es, p, i + 1);
            lemma_keep_prefix(es, p, i as int);
        }
        let ghost rolls0 = rolls@;
        let entity = &manifest.ownership_graph.entities[i];
        if entity.consolidation_method == ConsolidationMethod::Full {
            if let Some(ownership) = entity.ownership_percent {
                if dec_lt(ownership, one) {
                    let ghost j = rolls@.len() as int;
                    proof {
                        assert(keep(es.take(i + 1), p)[j] == es[i as int]);
                        assert(keep(es, p)[j] == es[i as int]);
                        if ok {
                            assert(last_translated_index(ts, nci_subjects(es)[j].code@) >= 0);
                        }
                    }
                    let k = match find_last_translated(translated_tbs, entity.code.as_str()) {
                        Some(k) => k,
                        None => {
                            let msg = "run_aggregate: NCI computation needs translated TB for `".to_string().concat(
                                entity.code.as_str(),
                            ).concat("` but none was produced");
                            return Err(GroupError::Aggregate(msg));
                        },
                    };
                    proof {
                        lemma_last_translated_index(ts, es[i as int].code@);
                    }
                    let translated = &translated_tbs[k];
                    let inputs = NciInputs {
                        entity,
                        period_net_income: net_income_from_translated(translated),
                        period_oci: oci_from_translated(translated),
                        total_dividends_paid: Dec::zero(),
                        opening_nci: opening_for(opening, entity.code.as_str()),
                        acquisition_date_nci_fair_value: None,
                        ownership_changes: no_changes.as_slice(),
                        period_start: manifest.period.start,
                        period_end: manifest.period.end,
                        currency: manifest.presentation_currency.clone(),
                    };
                    proof {
                        if ok {
                            assert(nci_inputs_for(inputs, es[i as int], ts[k as int], opening@, manifest.period,
                                manifest.presentation_currency@));
                            assert(nci_computable(inputs));
                            assert(!has_control_lost(inputs.ownership_changes@));
                            assert(nci_valid(inputs));
                        }
                    }
                    let rf = compute_nci_rollforward(&inputs)?;
                    proof {
                        assert(nci_amounts_match(rf, inputs));
                    }
                    rolls.push(rf);
                }
            }
        }
        proof {
            assert forall|j: int| 0 <= j < rolls@.len() implies (#[trigger] keep(es.take(i + 1), p)[j]).parent_code is Some
                && last_translated_index(ts, keep(es.take(i + 1), p)[j].code@) >= 0 by {
                assert(keep(es.take(i + 1), p)[j] == keep(es, p)[j]);
                if j < rolls0.len() {
                    assert(keep(es.take(i as int), p)[j] == keep(es, p)[j]);
                }
            }
        }
        i = i + 1;
    }
    proof {
        assert(es.take(i as int) =~= es);
        assert forall|j: int| 0 <= j < rolls@.len() implies (#[trigger] keep(es, p)[j]).parent_code is Some
            && last_translated_index(ts, keep(es, p)[j].code@) >= 0 by {
            assert(keep(es.take(i as int), p)[j] == keep(es, p)[j]);
        }
    }
    Ok(rolls)
}

/// An investee measured under the equity method: an equity-method entity
/// with a parent.
pub open spec fn is_em_subject(e: ManifestEntity) -> bool {
    e.consolidation_method == ConsolidationMethod::EquityMethod && e.parent_code is Some
}

/// The equity-method investees, in manifest order.
pub open spec fn em_subjects(es: Seq<ManifestEntity>) -> Seq<ManifestEntity> {
    keep(es, em_subject_pred())
}

/// [`is_em_subject`] as a predicate.
pub open spec fn em_subject_pred() -> spec_fn(ManifestEntity) -> bool {
    |e: ManifestEntity| is_em_subject(e)
}

/// Net income and dividends of the investee `code` from its deferred
/// trial balance (the last one of its code), zero when it has none.
pub open spec fn investee_income(
    tbs: Seq<(String, TrialBalance)>,
    types: Seq<Vec<TranslationAccountType>>,
    code: Seq<char>,
    dividends_code: Seq<char>,
) -> (int, int) {
    let k = last_tb_index(tbs, code);
    if k >= 0 {
        (tb_net_income(tbs[k].1.lines@, types[k]@), tb_dividends(tbs[k].1.lines@, dividends_code))
    } else {
        (0, 0)
    }
}

/// `inv` is the equity-method rollforward of `e`, from the income its
/// deferred trial balance shows, no impairment, and the opening carrying
/// value and suppressed loss of the prior period (zero when absent).
pub open spec fn em_built(
    inv: EquityMethodInvestment,
    e: ManifestEntity,
    income: (int, int),
    opening_carrying: Seq<(String, Dec)>,
    opening_suppressed: Seq<(String, Dec)>,
    period_end: crate::date::Date,
    currency: Seq<char>,
) -> bool {
    &&& inv.investee_code@ == e.code@
    &&& inv.investor_entity_code@ == e.parent_code->0@
    &&& inv.ownership_percent == e.ownership_percent->0
    &&& inv.period_end == period_end
    &&& inv.currency@ == currency
    &&& exists|i: EquityMethodInputs| #[trigger] em_result_matches(inv, i) && em_inputs_for(i, e, income,
        opening_carrying, opening_suppressed, period_end, currency)
}

/// `i` holds the inputs of the equity-method rollforward of `e`: the
/// income its deferred trial balance shows (whatever the scales), no
/// impairment, the opening carrying value and suppressed loss of the prior
/// period.
pub open spec fn em_inputs_for(
    i: EquityMethodInputs,
    e: ManifestEntity,
    income: (int, int),
    opening_carrying: Seq<(String, Dec)>,
    opening_suppressed: Seq<(String, Dec)>,
    period_end: crate::date::Date,
    currency: Seq<char>,
) -> bool {
    &&& *i.investee == e
    &&& i.investor_entity_code@ == e.parent_code->0@
    &&& i.investee_net_income.units() == income.0
    &&& i.investee_dividends_paid.units() == income.1
    &&& i.opening_carrying_value == opening_of(opening_carrying, e.code@)
    &&& i.opening_suppressed_loss == opening_of(opening_suppressed, e.code@)
    &&& i.impairment == Dec::zero_spec()
    &&& i.period_end == period_end
    &&& i.currency@ == currency
}

/// Every equity-method investee has an ownership strictly between 0 and 1
/// and its rollforward computes exactly from any inputs built for it
/// ([`em_computable`]): the rollforwards then all succeed.
pub open spec fn em_owed(
    es: Seq<ManifestEntity>,
    tbs: Seq<(String, TrialBalance)>,
    types: Seq<Vec<TranslationAccountType>>,
    dividends_code: Seq<char>,
    opening_carrying: Seq<(String, Dec)>,
    opening_suppressed: Seq<(String, Dec)>,
    period_end: crate::date::Date,
    currency: Seq<char>,
) -> bool {
    let subj = em_subjects(es);
    forall|j: int| 0 <= j < subj.len() ==> {
        &&& (#[trigger] subj[j]).ownership_percent matches Some(o) && 0 < o.units() < pow10(28)
        &&& forall|i: EquityMethodInputs| em_inputs_for(i, subj[j], investee_income(tbs, types, subj[j].code@, dividends_code),
            opening_carrying, opening_suppressed, period_end, currency) ==> #[trigger] em_computable(i)
    }
}

/// Every deferred trial balance sums exactly.
pub open spec fn deferred_fit(tbs: Seq<(String, TrialBalance)>) -> bool {
    forall|k: int| 0 <= k < tbs.len() ==> tb_lines_fit((#[trigger] tbs[k]).1.lines@)
}

/// One equity-method rollforward per equity-method investee with a
/// parent, in manifest order, from the net income and dividends of its
/// deferred trial balance (zero when it has none; `deferred_line_types[k]`
/// types the lines of entry `k`, `dividends_paid_code` is the
/// dividends-paid account), and its opening carrying value and suppressed
/// loss.  `Err` when an investee's ownership is not strictly between 0 and
/// 1, or when the rollforward fails.
pub fn build_equity_method_investments(
    manifest: &GroupManifest,
    deferred_tbs: &[(String, TrialBalance)],
    deferred_line_types: &[Vec<TranslationAccountType>],
    dividends_paid_code: &str,
    opening_carrying: &Vec<(String, Dec)>,
    opening_suppressed: &Vec<(String, Dec)>,
) -> (r: Result<Vec<EquityMethodInvestment>, GroupError>)
    requires
        sm_sorted(opening_carrying@),
        sm_sorted(opening_suppressed@),
        line_types_fit(deferred_tbs@, deferred_line_types@),
        deferred_fit(deferred_tbs@),
    ensures
        ({
            let subj = em_subjects(manifest.ownership_graph.entities@);
            &&& (exists|j: int| 0 <= j < subj.len() && !((#[trigger] subj[j]).ownership_percent matches Some(o)
                && 0 < o.units() < pow10(28))) ==> r is Err
            &&& em_owed(manifest.ownership_graph.entities@, deferred_tbs@, deferred_line_types@, dividends_paid_code@,
                opening_carrying@, opening_suppressed@, manifest.period.end, manifest.presentation_currency@) ==> r is Ok
            &&& r matches Ok(v) ==> {
                &&& v@.len() == subj.len()
                &&& forall|j: int| 0 <= j < subj.len() ==> em_built(#[trigger] v@[j], subj[j],
                    investee_income(deferred_tbs@, deferred_line_types@, subj[j].code@, dividends_paid_code@),
                    opening_carrying@, opening_suppressed@, manifest.period.end, manifest.presentation_currency@)
            }
        }),
{
    let ghost es = manifest.ownership_graph.entities@;
    let ghost tbs = deferred_tbs@;
    let ghost p = em_subject_pred();
    let ghost ok = em_owed(es, tbs, deferred_line_types@, dividends_paid_code@, opening_carrying@, opening_suppressed@,
        manifest.period.end, manifest.presentation_currency@);
    let mut invs: Vec<EquityMethodInvestment> = Vec::new();
    let mut i: usize = 0;
    while i < manifest.ownership_graph.entities.len()
        invariant
            es == manifest.ownership_graph.entities@,
            tbs == deferred_tbs@,
            p == em_subject_pred(),
            ok == em_owed(es, tbs, deferred_line_types@, dividends_paid_code@, opening_carrying@, opening_suppressed@,
                manifest.period.end, manifest.presentation_currency@),
            sm_sorted(opening_carrying@),
            sm_sorted(opening_suppressed@),
            line_types_fit(tbs, deferred_line_types@),
            deferred_fit(tbs),
            i <= es.len(),
            invs@.len() == keep(es.take(i as int), p).len(),
            forall|j: int| #![trigger invs@[j]] #![trigger keep(es.take(i as int), p)[j]] 0 <= j < invs@.len() ==> {
                let e = keep(es.take(i as int), p)[j];
                &&& e.ownership_percent matches Some(o) && 0 < o.units() < pow10(28)
                &&& em_built(invs@[j], e,
                    investee_income(tbs, deferred_line_types@, e.code@, dividends_paid_code@),
                    opening_carrying@, opening_suppressed@, manifest.period.end, manifest.presentation_currency@)
            },
        decreases manifest.ownership_graph.entities.len() - i,
    {
        proof {
            assert(es.take(i + 1).drop_last() =~= es.take(i as int));
            assert(es.take(i + 1).last() == es[i as int]);
            lemma_keep_prefix(es, p, i + 1);
            lemma_keep_prefix(es, p, i as int);
        }
        let ghost invs0 = invs@;
        let entity = &manifest.ownership_graph.entities[i];
        if entity.consolidation_method == ConsolidationMethod::EquityMethod {
            if let Some(parent_code) = &entity.parent_code {
                let ghost j = invs@.len() as int;
                proof {
                    assert(keep(es.take(i + 1), p)[j] == es[i as int]);
                }
                let (net_income, dividends) = match find_last_tb(deferred_tbs, entity.code.as_str()) {
                    Some(k) => {
                        proof {
                            lemma_last_tb_index(tbs, es[i as int].code@);
                            assert(deferred_line_types@[k as int]@.len() == tbs[k as int].1.lines@.len());
                            assert(tb_lines_fit(tbs[k as int].1.lines@));
                        }
                        (
                            net_income_from_tb(&deferred_tbs[k].1.lines, deferred_line_types[k].as_slice()),
                            dividends_from_tb(&deferred_tbs[k].1.lines, dividends_paid_code),
                        )
                    },
                    None => (Dec::zero(), Dec::zero()),
                };
                let inputs = EquityMethodInputs {
                    investee: entity,
                    investor_entity_code: parent_code.clone(),
                    investee_net_income: net_income,
                    investee_dividends_paid: dividends,
                    opening_carrying_value: opening_for(opening_carrying, entity.code.as_str()),
                    opening_suppressed_loss: opening_for(opening_suppressed, entity.code.as_str()),
                    impairment: Dec::zero(),
                    period_end: manifest.period.end,
                    currency: manifest.presentation_currency.clone(),
                };
                proof {
                    assert(keep(es, p)[j] == es[i as int]);
                    if ok {
                        assert(em_inputs_for(inputs, es[i as int], investee_income(tbs, deferred_line_types@,
                            es[i as int].code@, dividends_paid_code@), opening_carrying@, opening_suppressed@,
                            manifest.period.end, manifest.presentation_currency@));
                        assert(em_computable(inputs));
                        assert(em_valid(inputs));
                    }
                }
                let inv = compute_equity_method_investment(&inputs)?;
                proof {
                    assert(em_result_matches(inv, inputs));
                }
                invs.push(inv);
            }
        }
        proof {
            assert forall|j: int| 0 <= j < invs@.len() implies
                (#[trigger] keep(es.take(i + 1), p)[j]).ownership_percent matches Some(o) && 0 < o.units() < pow10(28) by {
                assert(keep(es.take(i + 1), p)[j] == keep(es, p)[j]);
                if j < invs0.len() {
                    assert(keep(es.take(i as int), p)[j] == keep(es, p)[j]);
                }
            }
        }
        i = i + 1;
    }
    proof {
        assert(es.take(i as int) =~= es);
        assert forall|j: int| 0 <= j < invs@.len() implies
            (#[trigger] keep(es, p)[j]).ownership_percent matches Some(o) && 0 < o.units() < pow10(28) by {
            assert(keep(es.take(i as int), p)[j] == keep(es, p)[j]);
        }
    }
    Ok(invs)
}

} // verus!
