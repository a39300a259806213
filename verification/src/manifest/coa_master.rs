//! The group chart-of-accounts master: one chart per accounting framework
//! in use across the group, and the framework-name normalisation the
//! manifest applies to configured framework strings.
use vstd::prelude::*;
use vstd::string::*;

use crate::manifest::expansion::ExpandedEntity;
use crate::manifest::ic_expansion::{hex_encode, hex_lower};
use crate::manifest::seeds::{blake3_digest, blake3_hash, push_bytes};
use crate::sorted_map::{group_by_key, group_values, lemma_sm_at, sm_map, sm_sorted, str_views};
use crate::text::{seq_lt, str_eq};

verus! {

/// One account of a chart: its number and the short description that
/// labels it on statements.
#[derive(Debug, Clone)]
pub struct ChartAccount {
    pub account_number: String,
    pub short_description: String,
}

/// The chart of one accounting framework.
#[derive(Debug, Clone)]
pub struct FrameworkChart {
    pub framework: String,
    /// `{group}_{framework}_coa`.
    pub coa_id: String,
    /// `{group} {framework} chart of accounts`.
    pub name: String,
    /// The country the chart is generated for; `None` for the national
    /// charts (`hgb`, `pcg`), whose loaders set it themselves.
    pub country: Option<String>,
    pub accounts: Vec<ChartAccount>,
}

/// Canonical chart-of-accounts registry for the whole group: one chart per
/// distinct framework.
#[derive(Debug, Clone)]
pub struct ChartOfAccountsMaster {
    /// The group's primary / consolidation framework.
    pub primary_framework: String,
    /// One chart per distinct framework.
    pub frameworks: Vec<FrameworkChart>,
    /// Deterministic identifier of the framework set.
    pub coa_id: String,
}

/// The `(number, short description)` pairs of a chart, in order.
pub open spec fn chart_pairs(s: Seq<ChartAccount>) -> Seq<(Seq<char>, Seq<char>)> {
    s.map_values(|a: ChartAccount| (a.account_number@, a.short_description@))
}

/// `i` is the first index whose chart is for `fw`.
pub open spec fn first_framework_at(s: Seq<FrameworkChart>, fw: Seq<char>, i: int) -> bool {
    &&& 0 <= i < s.len()
    &&& s[i].framework@ == fw
    &&& forall|j: int| 0 <= j < i ==> (#[trigger] s[j]).framework@ != fw
}

/// Index of the first chart for `fw`, or `-1` when there is none.
pub open spec fn framework_index(s: Seq<FrameworkChart>, fw: Seq<char>) -> int {
    if exists|i: int| first_framework_at(s, fw, i) {
        choose|i: int| first_framework_at(s, fw, i)
    } else {
        -1
    }
}

impl ChartOfAccountsMaster {
    /// Index of the chart for `framework`, if the master has one.
    pub fn find_framework(&self, framework: &str) -> (r: Option<usize>)
        ensures
            r is None <==> framework_index(self.frameworks@, framework@) < 0,
            r matches Some(i) ==> i == framework_index(self.frameworks@, framework@),
            framework_index(self.frameworks@, framework@) < self.frameworks@.len(),
            r is None <==> forall|j: int|
                0 <= j < self.frameworks@.len() ==> (#[trigger] self.frameworks@[j]).framework@
                    != framework@,
    {
        let ghost s = self.frameworks@;
        let mut i: usize = 0;
        while i < self.frameworks.len()
            invariant
                i <= s.len(),
                s == self.frameworks@,
                forall|j: int| 0 <= j < i ==> (#[trigger] s[j]).framework@ != framework@,
            decreases self.frameworks.len() - i,
        {
            if str_eq(self.frameworks[i].framework.as_str(), framework) {
                proof {
                    assert(first_framework_at(s, framework@, i as int));
                    let k = choose|k: int| first_framework_at(s, framework@, k);
                    if k < i {
                        assert(s[k].framework@ != framework@);
                    } else if k > i {
                        assert(s[i as int].framework@ != framework@);
                    }
                }
                return Some(i);
            }
            i = i + 1;
        }
        proof {
            if exists|k: int| first_framework_at(s, framework@, k) {
                let k = choose|k: int| first_framework_at(s, framework@, k);
                assert(s[k].framework@ != framework@);
            }
        }
        None
    }
}

/// Lower-casing of a string, as `str::to_lowercase` does it (full Unicode
/// case mapping).
pub uninterp spec fn lowercase(s: Seq<char>) -> Seq<char>;

/// `str::to_lowercase`.  Its result is a function of the input alone (the
/// Unicode case tables of std); what it is, is left to the name
/// `lowercase`.
#[verifier::external_body]
pub(crate) fn to_lowercase(s: &str) -> (r: String)
    ensures
        r@ == lowercase(s@),
{
    s.to_lowercase()
}

/// `s` with every `-` replaced by `_`.
pub open spec fn dash_to_underscore(s: Seq<char>) -> Seq<char> {
    s.map_values(|c: char| if c == '-' { '_' } else { c })
}

/// The canonical name of a normalised framework string.
pub open spec fn canonical_framework_name(s: Seq<char>) -> Seq<char> {
    if s == "ifrs"@ {
        "ifrs"@
    } else if s == "us_gaap"@ || s == "usgaap"@ || s == "usgaap2"@ {
        "us_gaap"@
    } else if s == "hgb"@ || s == "german_gaap"@ || s == "germangaap"@ {
        "hgb"@
    } else if s == "pcg"@ || s == "french_gaap"@ || s == "frenchgaap"@ {
        "pcg"@
    } else if s == "swiss_or"@ || s == "swissor"@ {
        "swiss_or"@
    } else {
        s
    }
}

/// `s` (lower-cased, dashes as underscores) is one of the known framework
/// aliases.
pub open spec fn known_framework_alias(s: Seq<char>) -> bool {
    s == "ifrs"@ || s == "us_gaap"@ || s == "usgaap"@ || s == "usgaap2"@ || s == "hgb"@ || s == "german_gaap"@
        || s == "germangaap"@ || s == "pcg"@ || s == "french_gaap"@ || s == "frenchgaap"@ || s == "swiss_or"@
        || s == "swissor"@
}

/// The canonical key of a framework label: a known alias, compared
/// case-insensitively with `-` read as `_`, maps to its canonical name;
/// anything else is kept as given.
pub open spec fn framework_key(raw: Seq<char>) -> Seq<char> {
    let n = dash_to_underscore(lowercase(raw));
    if known_framework_alias(n) {
        canonical_framework_name(n)
    } else {
        raw
    }
}

/// Replace every `-` of `s` by `_`.
fn replace_dashes(s: &str) -> (r: String)
    ensures
        r@ == dash_to_underscore(s@),
{
    let n = s.unicode_len();
    let mut out = String::new();
    let mut i: usize = 0;
    while i < n
        invariant
            n == s@.len(),
            i <= n,
            out@ == dash_to_underscore(s@.take(i as int)),
        decreases n - i,
    {
        let c = s.get_char(i);
        if c == '-' {
            out.append("_");
            proof {
                reveal_strlit("_");
            }
        } else {
            out.append(s.substring_char(i, i + 1));
        }
        proof {
            assert(dash_to_underscore(s@.take(i + 1)) =~= dash_to_underscore(s@.take(i as int)).push(
                if c == '-' { '_' } else { c },
            ));
            assert(out@ =~= dash_to_underscore(s@.take(i + 1)));
        }
        i = i + 1;
    }
    proof {
        assert(s@.take(i as int) =~= s@);
    }
    out
}

/// Normalise a configured framework string: lower-case it, turn `-` into
/// `_`, and map the known aliases onto their canonical names (`ifrs`,
/// `us_gaap`, `hgb`, `pcg`, `swiss_or`).  Anything else is kept as given.
pub fn canonicalize_framework(raw: &str) -> (r: String)
    ensures
        r@ == framework_key(raw@),
{
    let lower = to_lowercase(raw);
    let s = replace_dashes(lower.as_str());
    let t = s.as_str();
    if str_eq(t, "ifrs") {
        "ifrs".to_string()
    } else if str_eq(t, "us_gaap") || str_eq(t, "usgaap") || str_eq(t, "usgaap2") {
        "us_gaap".to_string()
    } else if str_eq(t, "hgb") || str_eq(t, "german_gaap") || str_eq(t, "germangaap") {
        "hgb".to_string()
    } else if str_eq(t, "pcg") || str_eq(t, "french_gaap") || str_eq(t, "frenchgaap") {
        "pcg".to_string()
    } else if str_eq(t, "swiss_or") || str_eq(t, "swissor") {
        "swiss_or".to_string()
    } else {
        raw.to_string()
    }
}

/// Number of occurrences of `c` in `s`.
pub open spec fn occurrences(s: Seq<Seq<char>>, c: Seq<char>) -> nat
    decreases s.len(),
{
    if s.len() == 0 {
        0
    } else {
        occurrences(s.drop_last(), c) + if s.last() == c {
            1nat
        } else {
            0nat
        }
    }
}

/// The character views of a list of strings.
pub open spec fn string_views(v: Seq<String>) -> Seq<Seq<char>> {
    v.map_values(|s: String| s@)
}

/// The most frequent country code of the list, `None` for an empty list.
/// Among equally frequent codes, the earliest in the list is taken.
pub fn most_common_country(countries: &[String]) -> (r: Option<&str>)
    ensures
        r is None <==> countries@.len() == 0,
        r matches Some(c) ==> {
            &&& string_views(countries@).contains(c@)
            &&& forall|k: int|
                0 <= k < countries@.len() ==> occurrences(string_views(countries@), #[trigger] countries@[k]@)
                    <= occurrences(string_views(countries@), c@)
        },
{
    if countries.len() == 0 {
        return None;
    }
    let ghost all = string_views(countries@);
    let mut best: usize = 0;
    let mut best_count: usize = count_of(countries, countries[0].as_str());
    let mut i: usize = 1;
    while i < countries.len()
        invariant
            1 <= i <= countries@.len(),
            all == string_views(countries@),
            best < countries@.len(),
            best_count == occurrences(all, countries@[best as int]@),
            forall|k: int| 0 <= k < i ==> occurrences(all, #[trigger] countries@[k]@) <= best_count,
        decreases countries.len() - i,
    {
        let n = count_of(countries, countries[i].as_str());
        if n > best_count {
            best = i;
            best_count = n;
        }
        i = i + 1;
    }
    proof {
        assert(all[best as int] == countries@[best as int]@);
    }
    Some(countries[best].as_str())
}

/// Number of entries of `v` equal to `c`.
fn count_of(v: &[String], c: &str) -> (r: usize)
    ensures
        r == occurrences(string_views(v@), c@),
{
    let ghost all = string_views(v@);
    let mut n: usize = 0;
    let mut i: usize = 0;
    while i < v.len()
        invariant
            i <= v@.len(),
            all == string_views(v@),
            n == occurrences(all.take(i as int), c@),
            n <= i,
        decreases v.len() - i,
    {
        proof {
            assert(all.take(i + 1).drop_last() =~= all.take(i as int));
            assert(all.take(i + 1).last() == v@[i as int]@);
        }
        if str_eq(v[i].as_str(), c) {
            n = n + 1;
        }
        i = i + 1;
    }
    proof {
        assert(all.take(i as int) =~= all);
    }
    n
}

/// Size of the generated charts.
#[derive(Debug, Clone, Copy, PartialEq, Eq, Structural)]
pub enum CoaComplexity {
    Small,
    Medium,
    Large,
}

/// The complexity a lower-cased label names; medium for any other label.
pub open spec fn complexity_of_label(l: Seq<char>) -> CoaComplexity {
    if l == "small"@ {
        CoaComplexity::Small
    } else if l == "large"@ {
        CoaComplexity::Large
    } else {
        CoaComplexity::Medium
    }
}

/// The chart complexity of the configuration defaults' `complexity`
/// label, matched case-insensitively; medium when absent.
pub fn defaults_complexity(label: Option<&str>) -> (r: CoaComplexity)
    ensures
        r == match label {
            Some(l) => complexity_of_label(lowercase(l@)),
            None => CoaComplexity::Medium,
        },
{
    match label {
        Some(l) => {
            let lower = to_lowercase(l);
            if str_eq(lower.as_str(), "small") {
                CoaComplexity::Small
            } else if str_eq(lower.as_str(), "large") {
                CoaComplexity::Large
            } else {
                CoaComplexity::Medium
            }
        },
        None => CoaComplexity::Medium,
    }
}

/// The `Debug` name of a complexity.
pub open spec fn complexity_name(c: CoaComplexity) -> Seq<char> {
    match c {
        CoaComplexity::Small => "Small"@,
        CoaComplexity::Medium => "Medium"@,
        CoaComplexity::Large => "Large"@,
    }
}

fn complexity_str(c: CoaComplexity) -> (r: &'static str)
    ensures
        r@ == complexity_name(c),
{
    match c {
        CoaComplexity::Small => "Small",
        CoaComplexity::Medium => "Medium",
        CoaComplexity::Large => "Large",
    }
}

/// The canonical framework of the defaults' `accounting_framework`
/// label, if there is one.
pub fn defaults_accounting_framework(label: Option<&str>) -> (r: Option<String>)
    ensures
        r is Some <==> label is Some,
        r matches Some(f) ==> f@ == framework_key(label->0@),
{
    match label {
        Some(l) => Some(canonicalize_framework(l)),
        None => None,
    }
}

/// The framework an entity reports under: its own, canonicalised, or the
/// fallback.
pub open spec fn entity_framework(e: ExpandedEntity, fallback: Seq<char>) -> Seq<char> {
    match e.accounting_framework {
        Some(f) => framework_key(f@),
        None => fallback,
    }
}

/// `c` is a most frequent element of `cs`, or `XX` when `cs` is empty.
pub open spec fn most_common_or_xx(cs: Seq<Seq<char>>, c: Seq<char>) -> bool {
    if cs.len() == 0 {
        c == "XX"@
    } else {
        cs.contains(c) && forall|k: int| 0 <= k < cs.len() ==> occurrences(cs, #[trigger] cs[k]) <= occurrences(cs, c)
    }
}

/// A national chart, loaded rather than generated.
pub open spec fn is_national(fw: Seq<char>) -> bool {
    fw == "hgb"@ || fw == "pcg"@
}

/// `fc` is the chart of framework `fw` for group `gid`, generated for the
/// most common country among `countries` (unless national).  The accounts
/// are left to the chart generator.
pub open spec fn chart_ok(fc: FrameworkChart, countries: Seq<Seq<char>>, gid: Seq<char>) -> bool {
    let fw = fc.framework@;
    &&& fc.coa_id@ == gid + "_"@ + fw + "_coa"@
    &&& fc.name@ == gid + " "@ + fw + " chart of accounts"@
    &&& fc.accounts@.len() == 0
    &&& is_national(fw) ==> fc.country is None
    &&& !is_national(fw) ==> (fc.country matches Some(c) && most_common_or_xx(countries, c@))
}

/// The frameworks' names joined by commas.
pub open spec fn framework_list(s: Seq<FrameworkChart>) -> Seq<char>
    decreases s.len(),
{
    if s.len() == 0 {
        Seq::empty()
    } else if s.len() == 1 {
        s[0].framework@
    } else {
        framework_list(s.drop_last()) + ","@ + s.last().framework@
    }
}

/// The countries of the entities reporting under `fw`, in order.
pub open spec fn countries_of(es: Seq<ExpandedEntity>, fallback: Seq<char>, fw: Seq<char>) -> Seq<Seq<char>>
    decreases es.len(),
{
    if es.len() == 0 {
        Seq::empty()
    } else if entity_framework(es.last(), fallback) == fw {
        countries_of(es.drop_last(), fallback, fw).push(es.last().country@)
    } else {
        countries_of(es.drop_last(), fallback, fw)
    }
}

proof fn lemma_group_values_countries(pairs: Seq<(String, String)>, es: Seq<ExpandedEntity>, fallback: Seq<char>, fw: Seq<char>)
    requires
        pairs.len() == es.len(),
        forall|i: int| 0 <= i < es.len() ==> (#[trigger] pairs[i]).0@ == entity_framework(es[i], fallback)
            && pairs[i].1@ == es[i].country@,
    ensures
        group_values(pairs, fw) == countries_of(es, fallback, fw),
    decreases es.len(),
{
    if es.len() > 0 {
        let n = es.len() - 1;
        assert(pairs[n].0@ == entity_framework(es[n], fallback));
        lemma_group_values_countries(pairs.drop_last(), es.drop_last(), fallback, fw);
    }
}

pub fn build_coa_for_framework(fw: &String, countries: &Vec<String>, group_id: &str) -> (r: FrameworkChart)
    ensures
        r.framework@ == fw@,
        chart_ok(r, str_views(countries@), group_id@),
{
    let country = if str_eq(fw.as_str(), "hgb") || str_eq(fw.as_str(), "pcg") {
        None
    } else {
        match most_common_country(countries.as_slice()) {
            Some(c) => Some(c.to_string()),
            None => Some("XX".to_string()),
        }
    };
    proof {
        assert(string_views(countries@) == str_views(countries@));
    }
    FrameworkChart {
        framework: fw.clone(),
        coa_id: group_id.to_string().concat("_").concat(fw.as_str()).concat("_coa"),
        name: group_id.to_string().concat(" ").concat(fw.as_str()).concat(" chart of accounts"),
        country,
        accounts: Vec::new(),
    }
}

/// Some chart is for `fw`.
pub open spec fn has_chart(fws: Seq<FrameworkChart>, fw: Seq<char>) -> bool {
    exists|k: int| 0 <= k < fws.len() && #[trigger] fws[k].framework@ == fw
}

/// Some group is keyed `fw`.
pub open spec fn has_group(g: Seq<(String, Vec<String>)>, fw: Seq<char>) -> bool {
    exists|j: int| 0 <= j < g.len() && #[trigger] g[j].0@ == fw
}

/// `r` is the chart-of-accounts master of the entities `es`, given the
/// defaults' framework label and complexity and the group id.
pub open spec fn coa_master_built(
    r: ChartOfAccountsMaster,
    es: Seq<ExpandedEntity>,
    default_framework: Option<Seq<char>>,
    complexity: CoaComplexity,
    group_id: Seq<char>,
) -> bool {
    let fb = match default_framework {
        Some(l) => framework_key(l),
        None => "ifrs"@,
    };
    let fws = r.frameworks@;
    &&& fws.len() > 0
    &&& forall|i: int, j: int| 0 <= i < j < fws.len() ==> seq_lt(#[trigger] fws[i].framework@, #[trigger] fws[j].framework@)
    &&& forall|k: int| 0 <= k < fws.len() ==> chart_ok(#[trigger] fws[k], countries_of(es, fb, fws[k].framework@), group_id)
    &&& forall|fw: Seq<char>| #[trigger] has_chart(fws, fw) <==> (if es.len() == 0 {
        fw == fb
    } else {
        countries_of(es, fb, fw).len() > 0
    })
    &&& r.primary_framework@ == match default_framework {
        Some(l) => framework_key(l),
        None => fws[0].framework@,
    }
    &&& r.coa_id@ == "GROUP_CoA_"@ + hex_lower(
        blake3_digest(vstd::utf8::encode_utf8(framework_list(fws) + "|"@ + complexity_name(complexity))).take(8),
    )
}

/// The group chart-of-accounts master: one chart per distinct framework
/// of the entities (an entity without one reports under the defaults'
/// framework, `ifrs` when the defaults name none), in framework order,
/// each generated for the framework's most common country; the primary
/// framework is the defaults' one, else the first; and the master's id
/// is `GROUP_CoA_` and the hex of the first eight bytes of the blake3
/// digest of the framework names joined by commas, `|` and the
/// complexity.  The accounts of each chart are left to the generator.
pub fn build_coa_master(
    expanded_entities: &[ExpandedEntity],
    default_framework: Option<&str>,
    complexity: CoaComplexity,
    group_id: &str,
) -> (r: ChartOfAccountsMaster)
    ensures
        coa_master_built(
            r,
            expanded_entities@,
            match default_framework {
                Some(l) => Some(l@),
                None => None,
            },
            complexity,
            group_id@,
        ),
{
    let fallback = match defaults_accounting_framework(default_framework) {
        Some(f) => f,
        None => "ifrs".to_string(),
    };
    let ghost fb = fallback@;
    let ghost es = expanded_entities@;
    // 1. (framework, country) of every entity.
    let mut pairs: Vec<(String, String)> = Vec::new();
    let mut i: usize = 0;
    while i < expanded_entities.len()
        invariant
            i <= es.len(),
            es == expanded_entities@,
            fb == fallback@,
            pairs@.len() == i,
            forall|k: int| 0 <= k < i ==> (#[trigger] pairs@[k]).0@ == entity_framework(es[k], fb) && pairs@[k].1@ == es[k].country@,
        decreases expanded_entities.len() - i,
    {
        let e = &expanded_entities[i];
        let fw = match &e.accounting_framework {
            Some(f) => canonicalize_framework(f.as_str()),
            None => fallback.clone(),
        };
        pairs.push((fw, e.country.clone()));
        i = i + 1;
    }
    let mut groups = group_by_key(&pairs);
    proof {
        assert forall|fw: Seq<char>| group_values(pairs@, fw) == countries_of(es, fb, fw) by {
            lemma_group_values_countries(pairs@, es, fb, fw);
        }
    }
    proof {
        if es.len() == 0 && groups@.len() > 0 {
            crate::sorted_map::lemma_sm_contains_iff(groups@, groups@[0].0@);
            assert(group_values(pairs@, groups@[0].0@).len() > 0);
        }
    }
    if groups.len() == 0 {
        proof {
            if es.len() > 0 {
                let fw0 = pairs@[0].0@;
                assert(countries_of(es, fb, fw0) == group_values(pairs@, fw0));
                assert(group_values(pairs@, fw0).len() > 0) by {
                    lemma_group_values_countries(pairs@, es, fb, fw0);
                    assert(countries_of(es, fb, fw0).len() > 0) by {
                        lemma_countries_nonempty(es, fb, 0);
                    }
                }
                assert(sm_map(groups@).contains_key(fw0));
            }
        }
        groups.push((fallback.clone(), Vec::new()));
        proof {
            assert(str_views(groups@[0].1@) =~= Seq::<Seq<char>>::empty());
        }
    }
    let ghost g = groups@;
    proof {
        if es.len() > 0 {
            assert forall|j: int| 0 <= j < g.len() implies str_views((#[trigger] g[j]).1@) == countries_of(es, fb, g[j].0@) by {
                lemma_sm_at(g, j);
            }
            assert forall|fw: Seq<char>| #[trigger] has_group(g, fw) <==> countries_of(es, fb, fw).len() > 0 by {
                crate::sorted_map::lemma_sm_contains_iff(g, fw);
            }
        } else {
            assert forall|fw: Seq<char>| #[trigger] has_group(g, fw) <==> fw == fb by {
                if fw == fb {
                    assert(g[0].0@ == fw);
                }
            }
        }
    }
    // 2. One chart per framework.
    let mut frameworks: Vec<FrameworkChart> = Vec::new();
    let mut k: usize = 0;
    while k < groups.len()
        invariant
            groups@ == g,
            k <= groups@.len(),
            frameworks@.len() == k,
            forall|j: int| 0 <= j < k ==> (#[trigger] frameworks@[j]).framework@ == groups@[j].0@
                && chart_ok(frameworks@[j], str_views(groups@[j].1@), group_id@),
        decreases groups.len() - k,
    {
        frameworks.push(build_coa_for_framework(&groups[k].0, &groups[k].1, group_id));
        k = k + 1;
    }
    // 3. The primary framework.
    let primary_framework = match defaults_accounting_framework(default_framework) {
        Some(d) => d,
        None => frameworks[0].framework.clone(),
    };
    // 4. The id of the framework set.
    let mut list = frameworks[0].framework.clone();
    let mut m: usize = 1;
    proof {
        assert(frameworks@.take(1).len() == 1);
    }
    while m < frameworks.len()
        invariant
            1 <= m <= frameworks@.len(),
            list@ == framework_list(frameworks@.take(m as int)),
        decreases frameworks.len() - m,
    {
        proof {
            assert(frameworks@.take(m + 1).drop_last() =~= frameworks@.take(m as int));
        }
        list = list.concat(",").concat(frameworks[m].framework.as_str());
        m = m + 1;
    }
    proof {
        assert(frameworks@.take(m as int) =~= frameworks@);
    }
    let key = list.concat("|").concat(complexity_str(complexity));
    let mut msg: Vec<u8> = Vec::new();
    push_bytes(&mut msg, key.as_str());
    let digest = blake3_hash(&msg);
    let mut head: Vec<u8> = Vec::new();
    let mut h: usize = 0;
    while h < 8
        invariant
            h <= 8,
            digest@.len() == 32,
            head@ == digest@.take(h as int),
        decreases 8 - h,
    {
        head.push(digest[h]);
        proof {
            assert(head@ =~= digest@.take(h + 1));
        }
        h = h + 1;
    }
    let coa_id = "GROUP_CoA_".to_string().concat(hex_encode(head.as_slice()).as_str());
    proof {
        assert(msg@ == vstd::utf8::encode_utf8(key@));
        assert forall|j: int| 0 <= j < frameworks@.len() implies chart_ok(
            #[trigger] frameworks@[j],
            countries_of(es, fb, frameworks@[j].framework@),
            group_id@,
        ) by {
            if es.len() > 0 {
                assert(str_views(g[j].1@) == countries_of(es, fb, g[j].0@));
            } else {
                assert(g[j].0@ == fb);
            }
        }
        assert forall|i: int, j: int| 0 <= i < j < frameworks@.len() implies seq_lt(
            #[trigger] frameworks@[i].framework@,
            #[trigger] frameworks@[j].framework@,
        ) by {
            if es.len() > 0 {
                assert(seq_lt(g[i].0@, g[j].0@));
            }
        }
        assert forall|fw: Seq<char>| #[trigger] has_chart(frameworks@, fw) <==> has_group(g, fw) by {
            if exists|j: int| 0 <= j < frameworks@.len() && #[trigger] frameworks@[j].framework@ == fw {
                let j = choose|j: int| 0 <= j < frameworks@.len() && #[trigger] frameworks@[j].framework@ == fw;
                assert(g[j].0@ == fw);
            }
            if exists|j: int| 0 <= j < g.len() && #[trigger] g[j].0@ == fw {
                let j = choose|j: int| 0 <= j < g.len() && #[trigger] g[j].0@ == fw;
                assert(frameworks@[j].framework@ == fw);
            }
        }
    }
    ChartOfAccountsMaster { primary_framework, frameworks, coa_id }
}

proof fn lemma_countries_nonempty(es: Seq<ExpandedEntity>, fb: Seq<char>, i: int)
    requires
        0 <= i < es.len(),
    ensures
        countries_of(es, fb, entity_framework(es[i], fb)).len() > 0,
    decreases es.len(),
{
    if i < es.len() - 1 {
        lemma_countries_nonempty(es.drop_last(), fb, i);
    }
}

} // verus!
