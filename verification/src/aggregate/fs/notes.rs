//! Notes to the consolidated financial statements: eight notes assembled
//! from templates over the manifest, the IC coverage report and the NCI,
//! CTA and equity-method rollforwards, so that equal inputs give equal
//! notes.
use vstd::prelude::*;

use crate::aggregate::coverage_report::CoverageReport;
use crate::aggregate::driver::keep;
use crate::aggregate::equity_method::EquityMethodInvestment;
use crate::aggregate::nci::NciRollforward;
use crate::aggregate::translation::cta::CtaRollforward;
use crate::config::ConsolidationMethod;
use crate::date::Date;
use crate::dec::{dec_to_str, decimal_text, lemma_decimal_text_single_line};
use crate::manifest::builder::{GroupManifest, ManifestEntity};
use crate::manifest::shard_plan::{digits_spec, usize_text};
use crate::sorted_map::{group_by_key, group_values, lemma_sm_at, sm_map, sm_sorted, str_views};

verus! {

/// One note of the disclosure set.
#[derive(Debug, Clone)]
pub struct Note {
    /// Sequential note number, from 1.
    pub note_number: u32,
    pub title: String,
    /// Plain-text body.
    pub body: String,
}

/// The notes to the consolidated financial statements.
#[derive(Debug, Clone)]
pub struct NotesToConsolidatedFs {
    pub group_id: String,
    pub period_end: Date,
    /// Name of the accounting framework, e.g. `IFRS`.
    pub framework: String,
    /// The notes, in note-number order.
    pub notes: Vec<Note>,
}

/// What the accounting-policies note says of the group's framework: its
/// name and the standards it applies to revenue, leases, fair value and
/// impairment.
#[derive(Debug, Clone)]
pub struct FrameworkStandards {
    pub name: String,
    pub revenue: String,
    pub leases: String,
    pub fair_value: String,
    pub impairment: String,
}

/// What the notes are assembled from.
pub struct NotesInputs<'a> {
    /// The manifest: entities, presentation currency, group id.
    pub manifest: &'a GroupManifest,
    /// The framework the statements are prepared under.
    pub framework: &'a FrameworkStandards,
    /// IC matching coverage (note 3).
    pub ic_coverage: &'a CoverageReport,
    /// The coverage as a percentage with two decimals, e.g. `87.50`.
    pub ic_coverage_percent: String,
    /// NCI rollforwards (note 4).
    pub nci_rollforwards: &'a [NciRollforward],
    /// CTA rollforwards (note 5).
    pub cta_rollforwards: &'a [CtaRollforward],
    /// Equity-method investments.
    pub equity_method_investments: &'a [EquityMethodInvestment],
}

// ── Text ─────────────────────────────────────────────────────────────────

/// The parts joined by `sep`.
pub open spec fn join(parts: Seq<Seq<char>>, sep: Seq<char>) -> Seq<char>
    decreases parts.len(),
{
    if parts.len() == 0 {
        Seq::empty()
    } else if parts.len() == 1 {
        parts[0]
    } else {
        join(parts.drop_last(), sep) + sep + parts.last()
    }
}

/// The strings of `parts` joined by `sep` (`[String]::join`).
pub fn join_strs(parts: &Vec<String>, sep: &str) -> (r: String)
    ensures
        r@ == join(str_views(parts@), sep@),
{
    if parts.len() == 0 {
        return String::new();
    }
    let ghost v = str_views(parts@);
    let mut out = parts[0].clone();
    proof {
        assert(v.take(1) =~= seq![parts@[0]@]);
    }
    let mut i: usize = 1;
    while i < parts.len()
        invariant
            v == str_views(parts@),
            1 <= i <= parts@.len(),
            out@ == join(v.take(i as int), sep@),
        decreases parts.len() - i,
    {
        proof {
            assert(v.take(i + 1).drop_last() =~= v.take(i as int));
            assert(v.take(i + 1).last() == parts@[i as int]@);
        }
        out = out.concat(sep).concat(parts[i].as_str());
        i = i + 1;
    }
    proof {
        assert(v.take(i as int) =~= v);
    }
    out
}

/// The codes of the entities.
pub open spec fn entity_codes(es: Seq<ManifestEntity>) -> Seq<Seq<char>> {
    es.map_values(|e: ManifestEntity| e.code@)
}

/// A parent or fully consolidated entity.
pub open spec fn fully_consolidated() -> spec_fn(ManifestEntity) -> bool {
    |e: ManifestEntity| e.consolidation_method == ConsolidationMethod::Parent
        || e.consolidation_method == ConsolidationMethod::Full
}

/// An equity-method investee.
pub open spec fn equity_accounted() -> spec_fn(ManifestEntity) -> bool {
    |e: ManifestEntity| e.consolidation_method == ConsolidationMethod::EquityMethod
}

/// The codes of the entities that satisfy `p`, in manifest order.
fn codes_where(es: &Vec<ManifestEntity>, want_full: bool) -> (r: Vec<String>)
    ensures
        str_views(r@) == entity_codes(keep(es@, if want_full { fully_consolidated() } else { equity_accounted() })),
{
    let ghost p = if want_full { fully_consolidated() } else { equity_accounted() };
    let mut out: Vec<String> = Vec::new();
    let mut i: usize = 0;
    while i < es.len()
        invariant
            i <= es@.len(),
            p == (if want_full { fully_consolidated() } else { equity_accounted() }),
            str_views(out@) == entity_codes(keep(es@.take(i as int), p)),
        decreases es.len() - i,
    {
        proof {
            assert(es@.take(i + 1).drop_last() =~= es@.take(i as int));
            assert(es@.take(i + 1).last() == es@[i as int]);
        }
        let m = es[i].consolidation_method;
        let wanted = if want_full {
            m == ConsolidationMethod::Parent || m == ConsolidationMethod::Full
        } else {
            m == ConsolidationMethod::EquityMethod
        };
        if wanted {
            let ghost before = out@;
            out.push(es[i].code.clone());
            proof {
                assert(str_views(out@) =~= str_views(before).push(es@[i as int].code@));
                assert(entity_codes(keep(es@.take(i + 1), p)) =~= entity_codes(keep(es@.take(i as int), p)).push(
                    es@[i as int].code@,
                ));
            }
        }
        i = i + 1;
    }
    proof {
        assert(es@.take(i as int) =~= es@);
    }
    out
}

/// The list of codes, or `none` when there is none.
pub open spec fn list_or_none(codes: Seq<Seq<char>>) -> Seq<char> {
    if codes.len() == 0 {
        "none"@
    } else {
        join(codes, ", "@)
    }
}

fn list_or_none_text(codes: &Vec<String>) -> (r: String)
    ensures
        r@ == list_or_none(str_views(codes@)),
{
    if codes.len() == 0 {
        "none".to_string()
    } else {
        join_strs(codes, ", ")
    }
}

/// Note 1: the framework, the standards it applies and the presentation
/// currency.
pub open spec fn policies_text(fw: FrameworkStandards, currency: Seq<char>) -> Seq<char> {
    "These consolidated financial statements have been prepared in accordance with "@ + fw.name@
        + ". Key standards applied: revenue recognition under "@ + fw.revenue@ + ", lease accounting under "@
        + fw.leases@ + ", fair value measurement under "@ + fw.fair_value@ + ", and impairment under "@
        + fw.impairment@ + ". The financial statements are presented in "@ + currency + "."@
}

/// Note 2: the fully consolidated entities and the equity-method
/// investees.
pub open spec fn consolidation_text(es: Seq<ManifestEntity>) -> Seq<char> {
    let full = entity_codes(keep(es, fully_consolidated()));
    let eq = entity_codes(keep(es, equity_accounted()));
    "These consolidated financial statements include the parent entity and all subsidiaries over which the group has control (IFRS 10 / ASC 810). Fully-consolidated entities ("@
        + digits_spec(full.len()) + "): "@ + list_or_none(full) + ". Equity-method investees ("@ + digits_spec(
        eq.len(),
    ) + "): "@ + list_or_none(eq)
        + ". Intercompany transactions and balances have been eliminated on consolidation."@
}

/// Note 3: pairs planned and matched, and the coverage.
pub open spec fn eliminations_text(planned: nat, matched: nat, percent: Seq<char>) -> Seq<char> {
    "Out of "@ + digits_spec(planned) + " intercompany transaction pairs planned, "@ + digits_spec(matched)
        + " were matched and eliminated on consolidation (coverage "@ + percent
        + "%). Unmatched residuals were retained with full pair-level diagnostics."@
}

/// One subsidiary's line of note 4.
pub open spec fn nci_line(rf: NciRollforward) -> Seq<char> {
    "- "@ + rf.entity_code@ + ": NCI "@ + decimal_text(rf.nci_percent) + ", opening "@ + decimal_text(
        rf.opening_nci,
    ) + ", share of profit "@ + decimal_text(rf.nci_share_of_profit) + ", dividends "@ + decimal_text(
        rf.nci_dividends,
    ) + ", closing "@ + decimal_text(rf.closing_nci) + " "@ + rf.currency@
}

/// Note 4: NCI by subsidiary.
pub open spec fn nci_text(rfs: Seq<NciRollforward>) -> Seq<char> {
    if rfs.len() == 0 {
        "The group has no non-controlling interest as of the reporting date."@
    } else {
        join(
            seq!["Non-controlling interest by subsidiary (opening, share of profit, dividends, closing):"@]
                + rfs.map_values(|rf: NciRollforward| nci_line(rf)),
            "\n"@,
        )
    }
}

/// The line breaks in `s`.
pub open spec fn line_breaks(s: Seq<char>) -> nat
    decreases s.len(),
{
    if s.len() == 0 {
        0
    } else {
        line_breaks(s.drop_last()) + (if s.last() == '\n' {
            1nat
        } else {
            0nat
        })
    }
}

proof fn lemma_line_breaks_concat(a: Seq<char>, b: Seq<char>)
    ensures
        line_breaks(a + b) == line_breaks(a) + line_breaks(b),
    decreases b.len(),
{
    if b.len() == 0 {
        assert(a + b =~= a);
    } else {
        lemma_line_breaks_concat(a, b.drop_last());
        assert((a + b).drop_last() =~= a + b.drop_last());
        assert((a + b).last() == b.last());
    }
}

proof fn lemma_no_line_breaks(s: Seq<char>)
    requires
        forall|i: int| 0 <= i < s.len() ==> #[trigger] s[i] != '\n',
    ensures
        line_breaks(s) == 0,
    decreases s.len(),
{
    if s.len() > 0 {
        assert forall|i: int| 0 <= i < s.drop_last().len() implies #[trigger] s.drop_last()[i] != '\n' by {
            assert(s.drop_last()[i] == s[i]);
        }
        lemma_no_line_breaks(s.drop_last());
    }
}

proof fn lemma_join_line_breaks(parts: Seq<Seq<char>>)
    requires
        parts.len() > 0,
        forall|k: int| 0 <= k < parts.len() ==> line_breaks(#[trigger] parts[k]) == 0,
    ensures
        line_breaks(join(parts, "\n"@)) == parts.len() - 1,
    decreases parts.len(),
{
    reveal_strlit("\n");
    if parts.len() > 1 {
        let init = parts.drop_last();
        assert forall|k: int| 0 <= k < init.len() implies line_breaks(#[trigger] init[k]) == 0 by {
            assert(init[k] == parts[k]);
        }
        lemma_join_line_breaks(init);
        lemma_line_breaks_concat(join(init, "\n"@), "\n"@);
        lemma_line_breaks_concat(join(init, "\n"@) + "\n"@, parts.last());
        assert("\n"@.drop_last() =~= Seq::<char>::empty());
        assert(line_breaks(Seq::<char>::empty()) == 0);
        assert("\n"@.len() == 1 && "\n"@.last() == '\n');
        assert(line_breaks("\n"@) == line_breaks("\n"@.drop_last()) + 1);
        assert(line_breaks("\n"@) == 1);
        assert(line_breaks(parts.last()) == 0) by {
            assert(parts.last() == parts[parts.len() - 1]);
        }
    }
}

proof fn lemma_nci_line_single(rf: NciRollforward)
    requires
        line_breaks(rf.entity_code@) == 0,
        line_breaks(rf.currency@) == 0,
    ensures
        line_breaks(nci_line(rf)) == 0,
{
    reveal_strlit("- ");
    reveal_strlit(": NCI ");
    reveal_strlit(", opening ");
    reveal_strlit(", share of profit ");
    reveal_strlit(", dividends ");
    reveal_strlit(", closing ");
    reveal_strlit(" ");
    lemma_no_line_breaks("- "@);
    lemma_no_line_breaks(": NCI "@);
    lemma_no_line_breaks(", opening "@);
    lemma_no_line_breaks(", share of profit "@);
    lemma_no_line_breaks(", dividends "@);
    lemma_no_line_breaks(", closing "@);
    lemma_no_line_breaks(" "@);
    lemma_decimal_text_single_line(rf.nci_percent);
    lemma_decimal_text_single_line(rf.opening_nci);
    lemma_decimal_text_single_line(rf.nci_share_of_profit);
    lemma_decimal_text_single_line(rf.nci_dividends);
    lemma_decimal_text_single_line(rf.closing_nci);
    lemma_no_line_breaks(decimal_text(rf.nci_percent));
    lemma_no_line_breaks(decimal_text(rf.opening_nci));
    lemma_no_line_breaks(decimal_text(rf.nci_share_of_profit));
    lemma_no_line_breaks(decimal_text(rf.nci_dividends));
    lemma_no_line_breaks(decimal_text(rf.closing_nci));
    let p1 = "- "@ + rf.entity_code@;
    lemma_line_breaks_concat("- "@, rf.entity_code@);
    let p2 = p1 + ": NCI "@;
    lemma_line_breaks_concat(p1, ": NCI "@);
    let p3 = p2 + decimal_text(rf.nci_percent);
    lemma_line_breaks_concat(p2, decimal_text(rf.nci_percent));
    let p4 = p3 + ", opening "@;
    lemma_line_breaks_concat(p3, ", opening "@);
    let p5 = p4 + decimal_text(rf.opening_nci);
    lemma_line_breaks_concat(p4, decimal_text(rf.opening_nci));
    let p6 = p5 + ", share of profit "@;
    lemma_line_breaks_concat(p5, ", share of profit "@);
    let p7 = p6 + decimal_text(rf.nci_share_of_profit);
    lemma_line_breaks_concat(p6, decimal_text(rf.nci_share_of_profit));
    let p8 = p7 + ", dividends "@;
    lemma_line_breaks_concat(p7, ", dividends "@);
    let p9 = p8 + decimal_text(rf.nci_dividends);
    lemma_line_breaks_concat(p8, decimal_text(rf.nci_dividends));
    let p10 = p9 + ", closing "@;
    lemma_line_breaks_concat(p9, ", closing "@);
    let p11 = p10 + decimal_text(rf.closing_nci);
    lemma_line_breaks_concat(p10, decimal_text(rf.closing_nci));
    let p12 = p11 + " "@;
    lemma_line_breaks_concat(p11, " "@);
    lemma_line_breaks_concat(p12, rf.currency@);
    assert(nci_line(rf) == p12 + rf.currency@);
}

/// Note 4 lists the subsidiaries one per line under its heading: when no
/// entity code or currency holds a line break, its text has exactly one
/// line break per subsidiary, and the line after the `k`-th break is the
/// `k`-th subsidiary's, which opens with `- `, its code and `:`.
pub proof fn law_nci_note_lines(rfs: Seq<NciRollforward>)
    requires
        rfs.len() > 0,
        forall|k: int|
            0 <= k < rfs.len() ==> line_breaks((#[trigger] rfs[k]).entity_code@) == 0 && line_breaks(rfs[k].currency@) == 0,
    ensures
        line_breaks(nci_text(rfs)) == rfs.len(),
        forall|k: int|
            0 <= k < rfs.len() ==> (#[trigger] nci_line(rfs[k])).take(rfs[k].entity_code@.len() + 3int) == "- "@ + rfs[k].entity_code@
                + ":"@,
{
    reveal_strlit("- ");
    reveal_strlit(": NCI ");
    reveal_strlit(":");
    let heading = "Non-controlling interest by subsidiary (opening, share of profit, dividends, closing):"@;
    reveal_strlit("Non-controlling interest by subsidiary (opening, share of profit, dividends, closing):");
    lemma_no_line_breaks(heading);
    let lines = rfs.map_values(|rf: NciRollforward| nci_line(rf));
    let parts = seq![heading] + lines;
    assert forall|k: int| 0 <= k < parts.len() implies line_breaks(#[trigger] parts[k]) == 0 by {
        if k > 0 {
            assert(parts[k] == nci_line(rfs[k - 1]));
            lemma_nci_line_single(rfs[k - 1]);
        }
    }
    lemma_join_line_breaks(parts);
    assert forall|k: int| 0 <= k < rfs.len() implies (#[trigger] nci_line(rfs[k])).take(rfs[k].entity_code@.len() + 3int)
        == "- "@ + rfs[k].entity_code@ + ":"@ by {
        let c = rfs[k].entity_code@;
        assert(nci_line(rfs[k]).take(c.len() + 3int) =~= "- "@ + c + ":"@);
    }
}

/// One entity's line of note 5.
pub open spec fn cta_line(c: CtaRollforward) -> Seq<char> {
    "- "@ + c.entity_code@ + " ("@ + c.functional_currency@ + "→"@ + c.presentation_currency@ + "): opening "@
        + decimal_text(c.opening_cta) + ", period "@ + decimal_text(c.period_cta) + ", closing "@ + decimal_text(
        c.closing_cta,
    )
}

/// Note 5: CTA by entity.
pub open spec fn cta_text(cs: Seq<CtaRollforward>) -> Seq<char> {
    if cs.len() == 0 {
        "All entities report in the group presentation currency; no translation adjustment was required for the period."@
    } else {
        join(
            seq!["Cumulative translation adjustment by entity (opening, period, closing):"@] + cs.map_values(
                |c: CtaRollforward| cta_line(c),
            ),
            "\n"@,
        )
    }
}

/// `(country, code)` of every entity, in manifest order.
pub open spec fn country_pairs(es: Seq<ManifestEntity>) -> Seq<(String, String)> {
    es.map_values(|e: ManifestEntity| (e.country, e.code))
}

/// `g` groups the entity codes by country: one entry per country, in
/// country order, with the codes in manifest order.
pub open spec fn country_groups(es: Seq<ManifestEntity>, g: Seq<(String, Vec<String>)>) -> bool {
    &&& sm_sorted(g)
    &&& forall|k: Seq<char>| #[trigger] sm_map(g).contains_key(k) <==> group_values(country_pairs(es), k).len() > 0
    &&& forall|k: Seq<char>| #[trigger] sm_map(g).contains_key(k) ==> str_views(sm_map(g)[k]@) == group_values(
        country_pairs(es),
        k,
    )
}

/// One country's line of note 6.
pub open spec fn segment_line(country: Seq<char>, codes: Seq<Seq<char>>) -> Seq<char> {
    "  - "@ + country + ": "@ + digits_spec(codes.len()) + " entit"@ + (if codes.len() == 1 {
        "y"@
    } else {
        "ies"@
    }) + " ("@ + join(codes, ", "@) + ")\n"@
}

/// The per-country lines of note 6.
pub open spec fn segment_lines(g: Seq<(String, Vec<String>)>) -> Seq<char>
    decreases g.len(),
{
    if g.len() == 0 {
        Seq::empty()
    } else {
        segment_lines(g.drop_last()) + segment_line(g.last().0@, str_views(g.last().1@))
    }
}

/// The closing paragraph of note 6.
pub open spec fn segments_tail() -> Seq<char> {
    "Operating segments by product line / business unit (IFRS 8.5) are sourced from per-entity profit-centre hierarchies and segment_reports artefacts; the consolidated segment aggregation across entities is on the v5.2 roadmap.  Refer to each contributing entity's `financial_reporting/segment_reporting/segment_reports.json` for the per-entity segment detail."@
}

/// Note 6: the entities by country.
pub open spec fn segments_text(entity_count: nat, g: Seq<(String, Vec<String>)>) -> Seq<char> {
    "Geographic segmentation (IFRS 8.13 / ASC 280-10-50-41 entity-wide disclosure).  The group consolidates "@
        + digits_spec(entity_count) + " entities across "@ + digits_spec(g.len()) + " countries.\n\n"@
        + "Per-country entity breakdown:\n"@ + segment_lines(g) + "\n"@ + segments_tail()
}

/// The body of note 6 for the entities `es`.
pub open spec fn is_segments_note(es: Seq<ManifestEntity>, body: Seq<char>) -> bool {
    exists|g: Seq<(String, Vec<String>)>| #[trigger] country_groups(es, g) && body == segments_text(es.len(), g)
}

/// Note 6: the group's entities by country (a geographic segmentation).
pub fn build_operating_segments_note(inputs: &NotesInputs) -> (r: String)
    ensures
        is_segments_note(inputs.manifest.ownership_graph.entities@, r@),
{
    let es = &inputs.manifest.ownership_graph.entities;
    let mut pairs: Vec<(String, String)> = Vec::new();
    let mut i: usize = 0;
    while i < es.len()
        invariant
            i <= es@.len(),
            pairs@ == country_pairs(es@.take(i as int)),
        decreases es.len() - i,
    {
        let ghost before = pairs@;
        pairs.push((es[i].country.clone(), es[i].code.clone()));
        proof {
            assert(country_pairs(es@.take(i + 1)) =~= before.push((es@[i as int].country, es@[i as int].code)));
        }
        i = i + 1;
    }
    proof {
        assert(es@.take(i as int) =~= es@);
    }
    let groups = group_by_key(&pairs);
    let mut body = "Geographic segmentation (IFRS 8.13 / ASC 280-10-50-41 entity-wide disclosure).  The group consolidates ".to_string();
    body = body.concat(usize_text(es.len()).as_str()).concat(" entities across ").concat(
        usize_text(groups.len()).as_str(),
    ).concat(" countries.\n\n").concat("Per-country entity breakdown:\n");
    let ghost head = body@;
    let mut k: usize = 0;
    while k < groups.len()
        invariant
            k <= groups@.len(),
            body@ == head + segment_lines(groups@.take(k as int)),
        decreases groups.len() - k,
    {
        proof {
            assert(groups@.take(k + 1).drop_last() =~= groups@.take(k as int));
            assert(groups@.take(k + 1).last() == groups@[k as int]);
        }
        let n = groups[k].1.len();
        let line = "  - ".to_string().concat(groups[k].0.as_str()).concat(": ").concat(usize_text(n).as_str()).concat(
            " entit",
        ).concat(if n == 1 { "y" } else { "ies" }).concat(" (").concat(join_strs(&groups[k].1, ", ").as_str()).concat(
            ")\n",
        );
        proof {
            assert(str_views(groups@[k as int].1@).len() == n);
        }
        body = body.concat(line.as_str());
        proof {
            assert(body@ =~= head + segment_lines(groups@.take(k + 1)));
        }
        k = k + 1;
    }
    proof {
        assert(groups@.take(k as int) =~= groups@);
    }
    body = body.concat("\n").concat(
        "Operating segments by product line / business unit (IFRS 8.5) are sourced from per-entity profit-centre hierarchies and segment_reports artefacts; the consolidated segment aggregation across entities is on the v5.2 roadmap.  Refer to each contributing entity's `financial_reporting/segment_reporting/segment_reports.json` for the per-entity segment detail.",
    );
    proof {
        assert(body@ =~= segments_text(es@.len(), groups@));
        assert(country_groups(es@, groups@));
    }
    body
}

/// The number, title and body of each note.
pub open spec fn note_views(notes: Seq<Note>) -> Seq<(u32, Seq<char>, Seq<char>)> {
    notes.map_values(|n: Note| (n.note_number, n.title@, n.body@))
}

/// The notes' titles, in note order.
pub open spec fn note_titles() -> Seq<Seq<char>> {
    seq![
        "Significant accounting policies"@,
        "Basis of consolidation"@,
        "Intercompany eliminations"@,
        "Non-controlling interest"@,
        "Foreign currency translation"@,
        "Operating segments"@,
        "Subsequent events"@,
        "Related parties"@,
    ]
}

/// The notes built from `inputs`, note 6's body being `segments`.
pub open spec fn notes_spec(inputs: NotesInputs, segments: Seq<char>) -> Seq<Seq<char>> {
    seq![
        policies_text(*inputs.framework, inputs.manifest.presentation_currency@),
        consolidation_text(inputs.manifest.ownership_graph.entities@),
        eliminations_text(
            inputs.ic_coverage.total_pairs_planned as nat,
            inputs.ic_coverage.matched as nat,
            inputs.ic_coverage_percent@,
        ),
        nci_text(inputs.nci_rollforwards@),
        cta_text(inputs.cta_rollforwards@),
        segments,
        "No material subsequent events identified."@,
        "Refer to manifest IC relationships for related-party balances."@,
    ]
}

fn nci_body(rfs: &[NciRollforward]) -> (r: String)
    ensures
        r@ == nci_text(rfs@),
{
    if rfs.len() == 0 {
        return "The group has no non-controlling interest as of the reporting date.".to_string();
    }
    let mut lines: Vec<String> = Vec::new();
    lines.push(
        "Non-controlling interest by subsidiary (opening, share of profit, dividends, closing):".to_string(),
    );
    let ghost header = seq!["Non-controlling interest by subsidiary (opening, share of profit, dividends, closing):"@];
    let mut i: usize = 0;
    while i < rfs.len()
        invariant
            i <= rfs@.len(),
            str_views(lines@) == header + rfs@.take(i as int).map_values(|rf: NciRollforward| nci_line(rf)),
        decreases rfs.len() - i,
    {
        let rf = &rfs[i];
        let line = "- ".to_string().concat(rf.entity_code.as_str()).concat(": NCI ").concat(
            dec_to_str(rf.nci_percent).as_str(),
        ).concat(", opening ").concat(dec_to_str(rf.opening_nci).as_str()).concat(", share of profit ").concat(
            dec_to_str(rf.nci_share_of_profit).as_str(),
        ).concat(", dividends ").concat(dec_to_str(rf.nci_dividends).as_str()).concat(", closing ").concat(
            dec_to_str(rf.closing_nci).as_str(),
        ).concat(" ").concat(rf.currency.as_str());
        let ghost before = lines@;
        lines.push(line);
        proof {
            assert(str_views(lines@) =~= str_views(before).push(nci_line(rfs@[i as int])));
            assert(rfs@.take(i + 1).map_values(|rf: NciRollforward| nci_line(rf)) =~= rfs@.take(i as int).map_values(
                |rf: NciRollforward| nci_line(rf),
            ).push(nci_line(rfs@[i as int])));
        }
        i = i + 1;
    }
    proof {
        assert(rfs@.take(i as int) =~= rfs@);
    }
    join_strs(&lines, "\n")
}

fn cta_body(cs: &[CtaRollforward]) -> (r: String)
    ensures
        r@ == cta_text(cs@),
{
    if cs.len() == 0 {
        return "All entities report in the group presentation currency; no translation adjustment was required for the period.".to_string();
    }
    let mut lines: Vec<String> = Vec::new();
    lines.push("Cumulative translation adjustment by entity (opening, period, closing):".to_string());
    let ghost header = seq!["Cumulative translation adjustment by entity (opening, period, closing):"@];
    let mut i: usize = 0;
    while i < cs.len()
        invariant
            i <= cs@.len(),
            str_views(lines@) == header + cs@.take(i as int).map_values(|c: CtaRollforward| cta_line(c)),
        decreases cs.len() - i,
    {
        let c = &cs[i];
        let line = "- ".to_string().concat(c.entity_code.as_str()).concat(" (").concat(
            c.functional_currency.as_str(),
        ).concat("→").concat(c.presentation_currency.as_str()).concat("): opening ").concat(
            dec_to_str(c.opening_cta).as_str(),
        ).concat(", period ").concat(dec_to_str(c.period_cta).as_str()).concat(", closing ").concat(
            dec_to_str(c.closing_cta).as_str(),
        );
        let ghost before = lines@;
        lines.push(line);
        proof {
            assert(str_views(lines@) =~= str_views(before).push(cta_line(cs@[i as int])));
            assert(cs@.take(i + 1).map_values(|c: CtaRollforward| cta_line(c)) =~= cs@.take(i as int).map_values(
                |c: CtaRollforward| cta_line(c),
            ).push(cta_line(cs@[i as int])));
        }
        i = i + 1;
    }
    proof {
        assert(cs@.take(i as int) =~= cs@);
    }
    join_strs(&lines, "\n")
}

fn note(number: u32, title: &str, body: String) -> (r: Note)
    ensures
        r.note_number == number,
        r.title@ == title@,
        r.body@ == body@,
{
    Note { note_number: number, title: title.to_string(), body }
}

/// Build the eight notes from `inputs`: accounting policies, basis of
/// consolidation, IC eliminations, NCI, currency translation, operating
/// segments, subsequent events and related parties, numbered from 1.
pub fn build_notes_to_consolidated_fs(inputs: &NotesInputs, period_end: Date) -> (r: NotesToConsolidatedFs)
    ensures
        r.group_id@ == inputs.manifest.group_id@,
        r.period_end == period_end,
        r.framework@ == inputs.framework.name@,
        r.notes@.len() == 8,
        forall|k: int| 0 <= k < 8 ==> (#[trigger] r.notes@[k]).note_number == k + 1 && r.notes@[k].title@ == note_titles()[k],
        is_segments_note(inputs.manifest.ownership_graph.entities@, r.notes@[5].body@),
        forall|k: int| 0 <= k < 8 ==> (#[trigger] r.notes@[k]).body@ == notes_spec(*inputs, r.notes@[5].body@)[k],
{
    let m = inputs.manifest;
    let fw = inputs.framework;
    let es = &m.ownership_graph.entities;
    let mut notes: Vec<Note> = Vec::new();

    let b1 = "These consolidated financial statements have been prepared in accordance with ".to_string().concat(
        fw.name.as_str(),
    ).concat(". Key standards applied: revenue recognition under ").concat(fw.revenue.as_str()).concat(
        ", lease accounting under ",
    ).concat(fw.leases.as_str()).concat(", fair value measurement under ").concat(fw.fair_value.as_str()).concat(
        ", and impairment under ",
    ).concat(fw.impairment.as_str()).concat(". The financial statements are presented in ").concat(
        m.presentation_currency.as_str(),
    ).concat(".");
    notes.push(note(1, "Significant accounting policies", b1));

    let full = codes_where(es, true);
    let eq = codes_where(es, false);
    let b2 = "These consolidated financial statements include the parent entity and all subsidiaries over which the group has control (IFRS 10 / ASC 810). Fully-consolidated entities (".to_string().concat(
        usize_text(full.len()).as_str(),
    ).concat("): ").concat(list_or_none_text(&full).as_str()).concat(". Equity-method investees (").concat(
        usize_text(eq.len()).as_str(),
    ).concat("): ").concat(list_or_none_text(&eq).as_str()).concat(
        ". Intercompany transactions and balances have been eliminated on consolidation.",
    );
    proof {
        assert(str_views(full@).len() == full@.len());
        assert(str_views(eq@).len() == eq@.len());
    }
    notes.push(note(2, "Basis of consolidation", b2));

    let b3 = "Out of ".to_string().concat(usize_text(inputs.ic_coverage.total_pairs_planned).as_str()).concat(
        " intercompany transaction pairs planned, ",
    ).concat(usize_text(inputs.ic_coverage.matched).as_str()).concat(
        " were matched and eliminated on consolidation (coverage ",
    ).concat(inputs.ic_coverage_percent.as_str()).concat(
        "%). Unmatched residuals were retained with full pair-level diagnostics.",
    );
    notes.push(note(3, "Intercompany eliminations", b3));
    notes.push(note(4, "Non-controlling interest", nci_body(inputs.nci_rollforwards)));
    notes.push(note(5, "Foreign currency translation", cta_body(inputs.cta_rollforwards)));
    let segments = build_operating_segments_note(inputs);
    let ghost seg = segments@;
    notes.push(note(6, "Operating segments", segments));
    notes.push(note(7, "Subsequent events", "No material subsequent events identified.".to_string()));
    notes.push(note(8, "Related parties", "Refer to manifest IC relationships for related-party balances.".to_string()));
    proof {
        assert(notes@[5].body@ == seg);
        assert forall|k: int| 0 <= k < 8 implies (#[trigger] notes@[k]).note_number == k + 1 && notes@[k].title@
            == note_titles()[k] by {
            if k == 0 {
            } else if k == 1 {
            } else if k == 2 {
            } else if k == 3 {
            } else if k == 4 {
            } else if k == 5 {
            } else if k == 6 {
            } else {
            }
        }
    }
    NotesToConsolidatedFs {
        group_id: m.group_id.clone(),
        period_end,
        framework: fw.name.clone(),
        notes,
    }
}

} // verus!
