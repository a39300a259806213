//! Expansion of the ownership configuration into the entity list:
//! explicit entities first, then each generated block in order, codes
//! checked for collisions; and the default functional currency of a
//! country.
use vstd::prelude::*;

use crate::config::ConsolidationMethod;
use crate::manifest::builder::{clone_opt, opt_view, HyperinflationStatus};
use crate::dec::Dec;
use crate::errors::GroupError;
use crate::labels::{label_map, label_or_code, lookup_label, pair_views};
use crate::manifest::shard_plan::{digits_spec, pad_digits, usize_text, zero_pad};
use crate::text::str_eq;
use crate::resolve::ConfigValue;

verus! {

/// Where an expanded entity came from.
#[derive(Debug, Clone, Copy, PartialEq, Eq, Structural)]
pub enum EntitySource {
    Explicit,
    Generated,
}

/// One entity of the expanded ownership graph.
#[derive(Debug, Clone)]
pub struct ExpandedEntity {
    pub code: String,
    pub name: Option<String>,
    pub country: String,
    pub functional_currency: String,
    pub scoping_profile: String,
    pub consolidation_method: ConsolidationMethod,
    pub ownership_percent: Option<Dec>,
    pub parent_code: Option<String>,
    pub accounting_framework: Option<String>,
    pub industry: Option<String>,
    /// IAS 29 status of the entity's functional currency.
    pub hyperinflation_status: HyperinflationStatus,
    pub source: EntitySource,
    pub generated_block_index: Option<usize>,
    /// Row budget of the entity, when the configuration sets one.
    pub rows: Option<u64>,
}

/// One explicit entity of the ownership configuration.
#[derive(Debug)]
pub struct EntityConfig {
    pub code: String,
    pub name: Option<String>,
    pub country: String,
    pub functional_currency: String,
    pub scoping_profile: String,
    pub consolidation_method: ConsolidationMethod,
    pub ownership_percent: Option<Dec>,
    pub parent_code: Option<String>,
    pub accounting_framework: Option<String>,
    pub industry: Option<String>,
    pub rows: Option<u64>,
    pub hyperinflation_status: HyperinflationStatus,
    /// The entity's own settings, layered over its profile's (key order).
    pub overrides: Vec<(String, ConfigValue)>,
}

/// A block of `count` generated entities sharing a code prefix and
/// settings.
#[derive(Debug, Clone)]
pub struct GeneratedEntityBlock {
    pub count: u32,
    pub code_prefix: String,
    pub country: Vec<String>,
    pub functional_currency: Option<String>,
    pub scoping_profile: String,
    pub consolidation_method: ConsolidationMethod,
    pub parent_code: Option<String>,
    pub accounting_framework: Option<String>,
    pub industry: Option<String>,
}

/// What was drawn for one generated entity: the index of its country in
/// the block's country list, and its ownership share.
#[derive(Debug, Clone, Copy)]
pub struct EntityDraw {
    pub country_index: usize,
    pub ownership_percent: Option<Dec>,
}

/// The code of the `i`-th entity (from 0) of a block: the prefix and
/// `i + 1` in seven zero-padded digits.
pub open spec fn generated_code(prefix: Seq<char>, i: int) -> Seq<char> {
    prefix + zero_pad(digits_spec((i + 1) as nat), 7)
}

pub open spec fn block_codes(b: GeneratedEntityBlock) -> Seq<Seq<char>> {
    Seq::new(b.count as nat, |i: int| generated_code(b.code_prefix@, i))
}

/// The codes of all generated entities, block after block.
pub open spec fn generated_codes(blocks: Seq<GeneratedEntityBlock>) -> Seq<Seq<char>>
    decreases blocks.len(),
{
    if blocks.len() == 0 {
        Seq::empty()
    } else {
        generated_codes(blocks.drop_last()) + block_codes(blocks.last())
    }
}

/// Every code of the expansion, in order.
pub open spec fn expansion_codes(entities: Seq<EntityConfig>, blocks: Seq<GeneratedEntityBlock>) -> Seq<Seq<char>> {
    entities.map_values(|e: EntityConfig| e.code@) + generated_codes(blocks)
}

/// The expansion is refused: a code occurs twice, or a block that
/// generates entities has no country to give them.
pub open spec fn expansion_refused(entities: Seq<EntityConfig>, blocks: Seq<GeneratedEntityBlock>) -> bool {
    ||| !expansion_codes(entities, blocks).no_duplicates()
    ||| exists|k: int| 0 <= k < blocks.len() && #[trigger] blocks[k].count > 0 && blocks[k].country@.len() == 0
}

/// `x` is the record of the explicit entity `e`.
pub open spec fn explicit_record(x: ExpandedEntity, e: EntityConfig) -> bool {
    &&& x.code@ == e.code@
    &&& opt_view(x.name) == opt_view(e.name)
    &&& x.country@ == e.country@
    &&& x.functional_currency@ == e.functional_currency@
    &&& x.scoping_profile@ == e.scoping_profile@
    &&& x.consolidation_method == e.consolidation_method
    &&& x.ownership_percent == e.ownership_percent
    &&& opt_view(x.parent_code) == opt_view(e.parent_code)
    &&& opt_view(x.accounting_framework) == opt_view(e.accounting_framework)
    &&& opt_view(x.industry) == opt_view(e.industry)
    &&& x.hyperinflation_status == e.hyperinflation_status
    &&& x.source == EntitySource::Explicit
    &&& x.generated_block_index is None
    &&& x.rows == e.rows
}

/// `x` is the `i`-th entity of block `b` (the `k`-th block), with the
/// draw `d`: its code, the drawn country, the block's currency or the
/// country's default, the drawn ownership share, the block's settings.
pub open spec fn generated_record(x: ExpandedEntity, b: GeneratedEntityBlock, k: int, i: int, d: EntityDraw) -> bool {
    &&& x.code@ == generated_code(b.code_prefix@, i)
    &&& x.name is None
    &&& x.country@ == b.country@[d.country_index as int]@
    &&& x.functional_currency@ == match b.functional_currency {
        Some(c) => c@,
        None => label_or_code(label_map(country_currency_pairs()), x.country@),
    }
    &&& x.scoping_profile@ == b.scoping_profile@
    &&& x.consolidation_method == b.consolidation_method
    &&& x.ownership_percent == d.ownership_percent
    &&& opt_view(x.parent_code) == opt_view(b.parent_code)
    &&& opt_view(x.accounting_framework) == opt_view(b.accounting_framework)
    &&& opt_view(x.industry) == opt_view(b.industry)
    &&& x.hyperinflation_status == HyperinflationStatus::NotHyperinflationary
    &&& x.source == EntitySource::Generated
    &&& x.generated_block_index == Some(k as usize)
    &&& x.rows is None
}

pub open spec fn record_codes(v: Seq<ExpandedEntity>) -> Seq<Seq<char>> {
    v.map_values(|x: ExpandedEntity| x.code@)
}

proof fn lemma_generated_codes_concat(a: Seq<GeneratedEntityBlock>, b: Seq<GeneratedEntityBlock>)
    ensures
        generated_codes(a + b) == generated_codes(a) + generated_codes(b),
    decreases b.len(),
{
    if b.len() == 0 {
        assert(a + b =~= a);
        assert(generated_codes(a) + generated_codes(b) =~= generated_codes(a));
    } else {
        lemma_generated_codes_concat(a, b.drop_last());
        assert((a + b).drop_last() =~= a + b.drop_last());
        assert((a + b).last() == b.last());
        assert(generated_codes(a + b) =~= generated_codes(a) + generated_codes(b));
    }
}

/// The codes up to and including the `i`-th of block `k` open the
/// expansion's codes.
proof fn lemma_codes_prefix(entities: Seq<EntityConfig>, blocks: Seq<GeneratedEntityBlock>, k: int, i: int)
    requires
        0 <= k < blocks.len(),
        0 <= i < blocks[k].count,
    ensures
        ({
            let pre = entities.map_values(|e: EntityConfig| e.code@) + generated_codes(blocks.take(k)) + block_codes(
                blocks[k],
            ).take(i + 1);
            &&& pre.len() <= expansion_codes(entities, blocks).len()
            &&& forall|j: int| 0 <= j < pre.len() ==> #[trigger] expansion_codes(entities, blocks)[j] == pre[j]
        }),
{
    let rest = blocks.subrange(k + 1, blocks.len() as int);
    assert(blocks =~= blocks.take(k) + (seq![blocks[k]] + rest));
    lemma_generated_codes_concat(blocks.take(k), seq![blocks[k]] + rest);
    lemma_generated_codes_concat(seq![blocks[k]], rest);
    assert(seq![blocks[k]].drop_last() =~= Seq::<GeneratedEntityBlock>::empty());
    assert(generated_codes(Seq::<GeneratedEntityBlock>::empty()) =~= Seq::<Seq<char>>::empty());
    assert(seq![blocks[k]].last() == blocks[k]);
    assert(generated_codes(seq![blocks[k]]) == generated_codes(seq![blocks[k]].drop_last()) + block_codes(blocks[k]));
    assert(generated_codes(seq![blocks[k]]) =~= block_codes(blocks[k]));
}

/// The codes of the blocks before `kk`, and of block `kk`, come before
/// those of block `k` for `kk < k`.
proof fn lemma_offset_mono(blocks: Seq<GeneratedEntityBlock>, kk: int, k: int)
    requires
        0 <= kk < k <= blocks.len(),
    ensures
        generated_codes(blocks.take(kk)).len() + blocks[kk].count <= generated_codes(blocks.take(k)).len(),
{
    lemma_generated_codes_concat(blocks.take(kk + 1), blocks.subrange(kk + 1, k));
    assert(blocks.take(kk + 1) + blocks.subrange(kk + 1, k) =~= blocks.take(k));
    assert(blocks.take(kk + 1).drop_last() =~= blocks.take(kk));
    assert(blocks.take(kk + 1).last() == blocks[kk]);
}

/// Whether some record already has `code`.
fn code_taken(out: &Vec<ExpandedEntity>, code: &str) -> (r: bool)
    ensures
        r == record_codes(out@).contains(code@),
{
    let mut j: usize = 0;
    while j < out.len()
        invariant
            j <= out@.len(),
            forall|t: int| 0 <= t < j ==> out@[t].code@ != code@,
        decreases out.len() - j,
    {
        if str_eq(out[j].code.as_str(), code) {
            proof {
                assert(record_codes(out@)[j as int] == code@);
            }
            return true;
        }
        j = j + 1;
    }
    proof {
        if record_codes(out@).contains(code@) {
            let t = choose|t: int| 0 <= t < record_codes(out@).len() && record_codes(out@)[t] == code@;
            assert(out@[t].code@ == code@);
        }
    }
    false
}

fn explicit_entity(e: &EntityConfig) -> (r: ExpandedEntity)
    ensures
        explicit_record(r, *e),
{
    ExpandedEntity {
        code: e.code.clone(),
        name: clone_opt(&e.name),
        country: e.country.clone(),
        functional_currency: e.functional_currency.clone(),
        scoping_profile: e.scoping_profile.clone(),
        consolidation_method: e.consolidation_method,
        ownership_percent: e.ownership_percent,
        parent_code: clone_opt(&e.parent_code),
        accounting_framework: clone_opt(&e.accounting_framework),
        industry: clone_opt(&e.industry),
        hyperinflation_status: e.hyperinflation_status,
        source: EntitySource::Explicit,
        generated_block_index: None,
        rows: e.rows,
    }
}

fn generated_entity(b: &GeneratedEntityBlock, k: usize, i: u32, code: String, d: EntityDraw) -> (r: ExpandedEntity)
    requires
        code@ == generated_code(b.code_prefix@, i as int),
        d.country_index < b.country@.len(),
    ensures
        generated_record(r, *b, k as int, i as int, d),
{
    let country = b.country[d.country_index].clone();
    let functional_currency = match &b.functional_currency {
        Some(c) => c.clone(),
        None => country_to_currency_default(country.as_str()),
    };
    ExpandedEntity {
        code,
        name: None,
        country,
        functional_currency,
        scoping_profile: b.scoping_profile.clone(),
        consolidation_method: b.consolidation_method,
        ownership_percent: d.ownership_percent,
        parent_code: clone_opt(&b.parent_code),
        accounting_framework: clone_opt(&b.accounting_framework),
        industry: clone_opt(&b.industry),
        hyperinflation_status: HyperinflationStatus::NotHyperinflationary,
        source: EntitySource::Generated,
        generated_block_index: Some(k),
        rows: None,
    }
}

/// Expand the ownership configuration: the explicit entities in order,
/// then the entities of each generated block in order, the `i`-th of a
/// block coded `prefix` + `i + 1` in seven zero-padded digits, with the
/// country and ownership share drawn for it (`draws[k][i]`) and the
/// block's currency or its country's default.  `Err(Config)` exactly when
/// a code occurs twice or a block that generates entities lists no
/// country.
pub fn expand_ownership(
    entities: &[EntityConfig],
    blocks: &[GeneratedEntityBlock],
    draws: &Vec<Vec<EntityDraw>>,
) -> (r: Result<Vec<ExpandedEntity>, GroupError>)
    requires
        draws@.len() == blocks@.len(),
        forall|k: int| 0 <= k < blocks@.len() ==> (#[trigger] draws@[k])@.len() == blocks@[k].count,
        forall|k: int, i: int|
            0 <= k < blocks@.len() && 0 <= i < blocks@[k].count && blocks@[k].country@.len() > 0 ==> (#[trigger] draws@[k]@[i]).country_index
                < blocks@[k].country@.len(),
    ensures
        r is Err <==> expansion_refused(entities@, blocks@),
        r is Err ==> r matches Err(GroupError::Config(_)),
        r matches Ok(v) ==> {
            &&& record_codes(v@) == expansion_codes(entities@, blocks@)
            &&& forall|i: int| 0 <= i < entities@.len() ==> explicit_record(#[trigger] v@[i], entities@[i])
            &&& forall|k: int, i: int|
                0 <= k < blocks@.len() && 0 <= i < blocks@[k].count ==> generated_record(
                    v@[entities@.len() + generated_codes(blocks@.take(k)).len() + i],
                    blocks@[k],
                    k,
                    i,
                    #[trigger] draws@[k]@[i],
                )
        },
{
    let ghost ecodes = entities@.map_values(|e: EntityConfig| e.code@);
    let mut out: Vec<ExpandedEntity> = Vec::new();
    let mut i: usize = 0;
    while i < entities.len()
        invariant
            i <= entities@.len(),
            ecodes == entities@.map_values(|e: EntityConfig| e.code@),
            record_codes(out@) == ecodes.take(i as int),
            record_codes(out@).no_duplicates(),
            out@.len() == i,
            forall|j: int| 0 <= j < i ==> explicit_record(#[trigger] out@[j], entities@[j]),
        decreases entities.len() - i,
    {
        if code_taken(&out, entities[i].code.as_str()) {
            proof {
                let t = choose|t: int| 0 <= t < record_codes(out@).len() && record_codes(out@)[t] == entities@[i as int].code@;
                let all = expansion_codes(entities@, blocks@);
                assert(all[t] == ecodes[t]);
                assert(all[i as int] == ecodes[i as int]);
                assert(all[t] == all[i as int]);
            }
            return Err(
                GroupError::Config(
                    "entity code ".to_string().concat(entities[i].code.as_str()).concat(" appears twice in ownership.entities"),
                ),
            );
        }
        let ghost before = out@;
        out.push(explicit_entity(&entities[i]));
        proof {
            assert(record_codes(out@) =~= record_codes(before).push(entities@[i as int].code@));
            assert(ecodes.take(i + 1) =~= ecodes.take(i as int).push(ecodes[i as int]));
        }
        i = i + 1;
    }
    let ghost n = entities@.len();
    let mut k: usize = 0;
    while k < blocks.len()
        invariant
            k <= blocks@.len(),
            n == entities@.len(),
            ecodes == entities@.map_values(|e: EntityConfig| e.code@),
            draws@.len() == blocks@.len(),
            forall|k: int| 0 <= k < blocks@.len() ==> (#[trigger] draws@[k])@.len() == blocks@[k].count,
            forall|k: int, i: int|
                0 <= k < blocks@.len() && 0 <= i < blocks@[k].count && blocks@[k].country@.len() > 0 ==> (#[trigger] draws@[k]@[i]).country_index
                    < blocks@[k].country@.len(),
            record_codes(out@) == ecodes + generated_codes(blocks@.take(k as int)),
            record_codes(out@).no_duplicates(),
            forall|j: int| 0 <= j < k ==> blocks@[j].count == 0 || (#[trigger] blocks@[j]).country@.len() > 0,
            forall|j: int| 0 <= j < n ==> explicit_record(#[trigger] out@[j], entities@[j]),
            forall|kk: int, ii: int|
                0 <= kk < k && 0 <= ii < blocks@[kk].count ==> generated_record(
                    out@[n + generated_codes(blocks@.take(kk)).len() + ii],
                    blocks@[kk],
                    kk,
                    ii,
                    #[trigger] draws@[kk]@[ii],
                ),
        decreases blocks.len() - k,
    {
        let block = &blocks[k];
        let ghost start = out@.len();
        let ghost base = record_codes(out@);
        proof {
            assert(blocks@.take(k + 1).drop_last() =~= blocks@.take(k as int));
            assert(blocks@.take(k + 1).last() == blocks@[k as int]);
            assert(record_codes(out@).len() == out@.len());
            assert(ecodes.len() == n);
            assert(base.len() == ecodes.len() + generated_codes(blocks@.take(k as int)).len());
        }
        let mut i: u32 = 0;
        while i < block.count
            invariant
                k < blocks@.len(),
                i <= block.count,
                out@.len() == start + i,
                block == blocks@[k as int],
                n == entities@.len(),
                ecodes == entities@.map_values(|e: EntityConfig| e.code@),
                draws@.len() == blocks@.len(),
                forall|k: int| 0 <= k < blocks@.len() ==> (#[trigger] draws@[k])@.len() == blocks@[k].count,
                forall|k: int, i: int|
                    0 <= k < blocks@.len() && 0 <= i < blocks@[k].count && blocks@[k].country@.len() > 0 ==> (#[trigger] draws@[k]@[i]).country_index
                        < blocks@[k].country@.len(),
                base == ecodes + generated_codes(blocks@.take(k as int)),
                start == base.len(),
                start == n + generated_codes(blocks@.take(k as int)).len(),
                record_codes(out@) == base + block_codes(*block).take(i as int),
                record_codes(out@).no_duplicates(),
                i > 0 ==> block.country@.len() > 0,
                forall|j: int| 0 <= j < n ==> explicit_record(#[trigger] out@[j], entities@[j]),
                forall|kk: int, ii: int|
                    0 <= kk < k && 0 <= ii < blocks@[kk].count ==> generated_record(
                        out@[n + generated_codes(blocks@.take(kk)).len() + ii],
                        blocks@[kk],
                        kk,
                        ii,
                        #[trigger] draws@[kk]@[ii],
                    ),
                forall|ii: int|
                    0 <= ii < i ==> generated_record(out@[start + ii], *block, k as int, ii, #[trigger] draws@[k as int]@[ii]),
            decreases block.count - i,
        {
            let code = block.code_prefix.clone().concat(pad_digits(i + 1, 7).as_str());
            proof {
                lemma_codes_prefix(entities@, blocks@, k as int, i as int);
                assert(block_codes(*block)[i as int] == code@);
            }
            if code_taken(&out, code.as_str()) {
                proof {
                    let all = expansion_codes(entities@, blocks@);
                    let pre = ecodes + generated_codes(blocks@.take(k as int)) + block_codes(*block).take(i + 1);
                    let t = choose|t: int| 0 <= t < record_codes(out@).len() && record_codes(out@)[t] == code@;
                    let p = out@.len() as int;
                    assert(pre[t] == record_codes(out@)[t]);
                    assert(pre[p] == code@);
                    assert(all[t] == pre[t]);
                    assert(all[p] == pre[p]);
                }
                return Err(
                    GroupError::Config(
                        "generated entity code ".to_string().concat(code.as_str()).concat(
                            " collides with an existing explicit or generated code",
                        ),
                    ),
                );
            }
            if block.country.len() == 0 {
                proof {
                    assert(blocks@[k as int].count > 0);
                }
                return Err(
                    GroupError::Config(
                        "generated block ".to_string().concat(usize_text(k).as_str()).concat(
                            " has empty country list — at least one required",
                        ),
                    ),
                );
            }
            let d = draws[k][i as usize];
            let ghost before = out@;
            out.push(generated_entity(block, k, i, code, d));
            proof {
                assert(record_codes(out@) =~= record_codes(before).push(block_codes(*block)[i as int]));
                assert(block_codes(*block).take(i + 1) =~= block_codes(*block).take(i as int).push(block_codes(*block)[i as int]));
                assert(record_codes(out@).no_duplicates()) by {
                    assert forall|a: int, b: int| 0 <= a < b < record_codes(out@).len() implies record_codes(out@)[a] != record_codes(out@)[b] by {
                        if b == before.len() {
                            assert(record_codes(before)[a] == record_codes(out@)[a]);
                        } else {
                            assert(record_codes(before)[a] == record_codes(out@)[a]);
                            assert(record_codes(before)[b] == record_codes(out@)[b]);
                        }
                    }
                }
                assert(draws@[k as int]@[i as int] == d);
                assert forall|kk: int, ii: int|
                    0 <= kk < k && 0 <= ii < blocks@[kk].count implies generated_record(
                        out@[n + generated_codes(blocks@.take(kk)).len() + ii],
                        blocks@[kk],
                        kk,
                        ii,
                        #[trigger] draws@[kk]@[ii],
                    ) by {
                    lemma_offset_mono(blocks@, kk, k as int);
                    assert(out@[n + generated_codes(blocks@.take(kk)).len() + ii] == before[n + generated_codes(blocks@.take(kk)).len() + ii]);
                }
                assert forall|ii: int| 0 <= ii < i + 1 implies generated_record(
                    out@[start + ii],
                    *block,
                    k as int,
                    ii,
                    #[trigger] draws@[k as int]@[ii],
                ) by {
                    if ii < i {
                        assert(out@[start + ii] == before[start + ii]);
                    }
                }
                assert forall|j: int| 0 <= j < n implies explicit_record(#[trigger] out@[j], entities@[j]) by {
                    assert(out@[j] == before[j]);
                }
            }
            i = i + 1;
        }
        proof {
            assert(block_codes(*block).take(i as int) =~= block_codes(*block));
            assert forall|kk: int, ii: int|
                0 <= kk < k + 1 && 0 <= ii < blocks@[kk].count implies generated_record(
                    out@[n + generated_codes(blocks@.take(kk)).len() + ii],
                    blocks@[kk],
                    kk,
                    ii,
                    #[trigger] draws@[kk]@[ii],
                ) by {
                if kk == k {
                    assert(generated_record(out@[start + ii], *block, k as int, ii, draws@[k as int]@[ii]));
                }
            }
        }
        k = k + 1;
    }
    proof {
        assert(blocks@.take(k as int) =~= blocks@);
        assert forall|j: int| 0 <= j < blocks@.len() && #[trigger] blocks@[j].count > 0 implies blocks@[j].country@.len() > 0 by {
            assert(blocks@[j].count == 0 || blocks@[j].country@.len() > 0);
        }
    }
    Ok(out)
}

/// Country → default currency, for the common sovereign codes.
pub open spec fn country_currency_pairs() -> Seq<(Seq<char>, Seq<char>)> {
    seq![
        ("CH"@, "CHF"@),
        ("US"@, "USD"@),
        ("CA"@, "CAD"@),
        ("MX"@, "MXN"@),
        ("BR"@, "BRL"@),
        ("AR"@, "ARS"@),
        ("GB"@, "GBP"@),
        ("DE"@, "EUR"@),
        ("FR"@, "EUR"@),
        ("IT"@, "EUR"@),
        ("ES"@, "EUR"@),
        ("NL"@, "EUR"@),
        ("BE"@, "EUR"@),
        ("AT"@, "EUR"@),
        ("IE"@, "EUR"@),
        ("PT"@, "EUR"@),
        ("FI"@, "EUR"@),
        ("LU"@, "EUR"@),
        ("PL"@, "PLN"@),
        ("SE"@, "SEK"@),
        ("NO"@, "NOK"@),
        ("DK"@, "DKK"@),
        ("CN"@, "CNY"@),
        ("JP"@, "JPY"@),
        ("KR"@, "KRW"@),
        ("IN"@, "INR"@),
        ("ID"@, "IDR"@),
        ("SG"@, "SGD"@),
        ("TH"@, "THB"@),
        ("VN"@, "VND"@),
        ("AU"@, "AUD"@),
        ("NZ"@, "NZD"@),
        ("ZA"@, "ZAR"@),
        ("AE"@, "AED"@),
        ("SA"@, "SAR"@),
        ("TR"@, "TRY"@),
        ("RU"@, "RUB"@)
    ]
}

fn country_currency_table() -> (r: Vec<(String, String)>)
    ensures
        pair_views(r@) == country_currency_pairs(),
{
    let v: Vec<(String, String)> = vec![
        ("CH".to_string(), "CHF".to_string()),
        ("US".to_string(), "USD".to_string()),
        ("CA".to_string(), "CAD".to_string()),
        ("MX".to_string(), "MXN".to_string()),
        ("BR".to_string(), "BRL".to_string()),
        ("AR".to_string(), "ARS".to_string()),
        ("GB".to_string(), "GBP".to_string()),
        ("DE".to_string(), "EUR".to_string()),
        ("FR".to_string(), "EUR".to_string()),
        ("IT".to_string(), "EUR".to_string()),
        ("ES".to_string(), "EUR".to_string()),
        ("NL".to_string(), "EUR".to_string()),
        ("BE".to_string(), "EUR".to_string()),
        ("AT".to_string(), "EUR".to_string()),
        ("IE".to_string(), "EUR".to_string()),
        ("PT".to_string(), "EUR".to_string()),
        ("FI".to_string(), "EUR".to_string()),
        ("LU".to_string(), "EUR".to_string()),
        ("PL".to_string(), "PLN".to_string()),
        ("SE".to_string(), "SEK".to_string()),
        ("NO".to_string(), "NOK".to_string()),
        ("DK".to_string(), "DKK".to_string()),
        ("CN".to_string(), "CNY".to_string()),
        ("JP".to_string(), "JPY".to_string()),
        ("KR".to_string(), "KRW".to_string()),
        ("IN".to_string(), "INR".to_string()),
        ("ID".to_string(), "IDR".to_string()),
        ("SG".to_string(), "SGD".to_string()),
        ("TH".to_string(), "THB".to_string()),
        ("VN".to_string(), "VND".to_string()),
        ("AU".to_string(), "AUD".to_string()),
        ("NZ".to_string(), "NZD".to_string()),
        ("ZA".to_string(), "ZAR".to_string()),
        ("AE".to_string(), "AED".to_string()),
        ("SA".to_string(), "SAR".to_string()),
        ("TR".to_string(), "TRY".to_string()),
        ("RU".to_string(), "RUB".to_string())
    ];
    assert(pair_views(v@) =~= country_currency_pairs());
    v
}

/// The default functional currency of a country: the table's currency,
/// or the country code itself when the country is not in the table.
pub fn country_to_currency_default(country: &str) -> (r: String)
    ensures
        r@ == label_or_code(label_map(country_currency_pairs()), country@),
{
    let table = country_currency_table();
    lookup_label(&table, country)
}

} // verus!
