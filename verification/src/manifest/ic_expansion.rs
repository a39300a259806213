//! Expanding the configured intercompany relationships into concrete
//! (seller, buyer) edges.  Explicit relationships come first, in order;
//! each pattern then fans out to every matching pair, leaving out
//! self-pairs, fair-value buyers and any (seller, buyer, first type)
//! already present, so an explicit relationship wins over a pattern.
use vstd::prelude::*;

use crate::config::{
    ConsolidationMethod, IcRelationshipConfig, IcRelationshipExplicit, IcRelationshipPattern, IcTransactionType,
    IntercompanyConfig, TransferPricingMethod,
};
use crate::dec::Dec;
use crate::errors::GroupError;
use crate::manifest::expansion::ExpandedEntity;
use crate::manifest::seeds::{blake3_digest, blake3_hash, le_bytes, push_bytes, push_le_bytes};
use crate::text::str_eq;

verus! {

/// Where a resolved relationship came from.
#[derive(Debug, Clone, Copy, PartialEq, Eq, Structural)]
pub enum IcSource {
    Explicit,
    Pattern,
}

/// A resolved intercompany edge with a stable id.
#[derive(Debug, Clone)]
pub struct ResolvedIcRelationship {
    pub id: String,
    pub seller: String,
    pub buyer: String,
    pub types: Vec<IcTransactionType>,
    pub annual_volume: Dec,
    pub transfer_pricing: Option<TransferPricingMethod>,
    pub markup_percent: Option<Dec>,
    pub source: IcSource,
    /// Index of the originating pattern among the relationships.
    pub pattern_index: Option<usize>,
}

/// The snake-case name of a transaction type.
pub open spec fn transaction_type_name(t: IcTransactionType) -> Seq<char> {
    match t {
        IcTransactionType::GoodsSale => "goods_sale"@,
        IcTransactionType::ServiceProvided => "service_provided"@,
        IcTransactionType::ManagementFee => "management_fee"@,
        IcTransactionType::Royalty => "royalty"@,
        IcTransactionType::CostSharing => "cost_sharing"@,
        IcTransactionType::LoanInterest => "loan_interest"@,
        IcTransactionType::Dividend => "dividend"@,
        IcTransactionType::ExpenseRecharge => "expense_recharge"@,
    }
}

fn type_str(t: IcTransactionType) -> (r: &'static str)
    ensures
        r@ == transaction_type_name(t),
{
    match t {
        IcTransactionType::GoodsSale => "goods_sale",
        IcTransactionType::ServiceProvided => "service_provided",
        IcTransactionType::ManagementFee => "management_fee",
        IcTransactionType::Royalty => "royalty",
        IcTransactionType::CostSharing => "cost_sharing",
        IcTransactionType::LoanInterest => "loan_interest",
        IcTransactionType::Dividend => "dividend",
        IcTransactionType::ExpenseRecharge => "expense_recharge",
    }
}

/// A hex digit, lowercase.
pub open spec fn hex_digit(n: int) -> char {
    if n < 10 {
        ((n + 48) as u8) as char
    } else {
        ((n + 87) as u8) as char
    }
}

/// Lowercase hex of bytes, two digits per byte.
pub open spec fn hex_lower(b: Seq<u8>) -> Seq<char>
    decreases b.len(),
{
    if b.len() == 0 {
        Seq::empty()
    } else {
        hex_lower(b.drop_last()) + seq![hex_digit(b.last() as int / 16), hex_digit(b.last() as int % 16)]
    }
}

/// `hex::encode`: two lowercase hex digits per byte, in order.
#[verifier::external_body]
pub(crate) fn hex_encode(bytes: &[u8]) -> (r: String)
    ensures
        r@ == hex_lower(bytes@),
{
    hex::encode(bytes)
}

/// The stable id of an edge: `ICR_` and the hex of the first eight
/// bytes of the blake3 digest of `icr`, the group seed, seller, `|`,
/// buyer, `|` and the first type's name.
pub open spec fn edge_id(group_seed: u64, seller: Seq<char>, buyer: Seq<char>, t: IcTransactionType) -> Seq<char> {
    let msg = vstd::utf8::encode_utf8("icr"@) + le_bytes(group_seed) + vstd::utf8::encode_utf8(seller)
        + vstd::utf8::encode_utf8("|"@) + vstd::utf8::encode_utf8(buyer) + vstd::utf8::encode_utf8("|"@)
        + vstd::utf8::encode_utf8(transaction_type_name(t));
    "ICR_"@ + hex_lower(blake3_digest(msg).take(8))
}

fn hash_id(group_seed: u64, seller: &str, buyer: &str, t: IcTransactionType) -> (r: String)
    ensures
        r@ == edge_id(group_seed, seller@, buyer@, t),
{
    let mut msg: Vec<u8> = Vec::new();
    push_bytes(&mut msg, "icr");
    push_le_bytes(&mut msg, group_seed);
    push_bytes(&mut msg, seller);
    push_bytes(&mut msg, "|");
    push_bytes(&mut msg, buyer);
    push_bytes(&mut msg, "|");
    push_bytes(&mut msg, type_str(t));
    let digest = blake3_hash(&msg);
    let mut head: Vec<u8> = Vec::new();
    let mut i: usize = 0;
    while i < 8
        invariant
            i <= 8,
            digest@.len() == 32,
            head@ == digest@.take(i as int),
        decreases 8 - i,
    {
        head.push(digest[i]);
        proof {
            assert(head@ =~= digest@.take(i + 1));
        }
        i = i + 1;
    }
    "ICR_".to_string().concat(hex_encode(head.as_slice()).as_str())
}

/// Lowercase of an ASCII letter; other characters unchanged.
pub open spec fn ascii_lower(c: char) -> char {
    if 'A' <= c <= 'Z' {
        ((c as u32) + 32) as char
    } else {
        c
    }
}

/// `p` is `any`, ignoring ASCII case.
pub open spec fn is_any(p: Seq<char>) -> bool {
    p.len() == 3 && ascii_lower(p[0]) == 'a' && ascii_lower(p[1]) == 'n' && ascii_lower(p[2]) == 'y'
}

fn lower(c: char) -> (r: char)
    ensures
        r == ascii_lower(c),
{
    if 'A' <= c && c <= 'Z' {
        ((c as u32) + 32) as u8 as char
    } else {
        c
    }
}

fn eq_any(p: &str) -> (r: bool)
    ensures
        r == is_any(p@),
{
    if p.unicode_len() != 3 {
        return false;
    }
    lower(p.get_char(0)) == 'a' && lower(p.get_char(1)) == 'n' && lower(p.get_char(2)) == 'y'
}

/// An entity is on a pattern side: the fixed entity when one is named,
/// else any entity when no profile or `any` is given, else the entities
/// of that scoping profile.
pub open spec fn side_ok(e: ExpandedEntity, fixed: Option<String>, profile: Option<String>) -> bool {
    match fixed {
        Some(c) => e.code@ == c@,
        None => match profile {
            None => true,
            Some(p) => is_any(p@) || p@ == e.scoping_profile@,
        },
    }
}

fn side_matches(e: &ExpandedEntity, fixed: &Option<String>, profile: &Option<String>) -> (r: bool)
    ensures
        r == side_ok(*e, *fixed, *profile),
{
    match fixed {
        Some(c) => str_eq(e.code.as_str(), c.as_str()),
        None => match profile {
            None => true,
            Some(p) => eq_any(p.as_str()) || str_eq(p.as_str(), e.scoping_profile.as_str()),
        },
    }
}

/// Some entity carries `code`.
pub open spec fn known(entities: Seq<ExpandedEntity>, code: Seq<char>) -> bool {
    exists|k: int| 0 <= k < entities.len() && (#[trigger] entities[k]).code@ == code
}

/// A relationship can be expanded: an explicit one has types, two
/// different and known entities; a pattern has types.
pub open spec fn rel_ok(rel: IcRelationshipConfig, entities: Seq<ExpandedEntity>) -> bool {
    match rel {
        IcRelationshipConfig::Explicit(e) => {
            &&& e.types@.len() > 0
            &&& e.seller@ != e.buyer@
            &&& known(entities, e.seller@)
            &&& known(entities, e.buyer@)
        },
        IcRelationshipConfig::Pattern(p) => p.types@.len() > 0,
    }
}

/// The explicit relationships, in order.
pub open spec fn explicit_rels(rels: Seq<IcRelationshipConfig>) -> Seq<IcRelationshipExplicit>
    decreases rels.len(),
{
    if rels.len() == 0 {
        Seq::empty()
    } else {
        match rels.last() {
            IcRelationshipConfig::Explicit(e) => explicit_rels(rels.drop_last()).push(e),
            IcRelationshipConfig::Pattern(_) => explicit_rels(rels.drop_last()),
        }
    }
}

/// The (seller, buyer, first type) of an edge.
pub open spec fn triple(r: ResolvedIcRelationship) -> (Seq<char>, Seq<char>, IcTransactionType) {
    (r.seller@, r.buyer@, r.types@[0])
}

/// `r` resolves explicit relationship `e`.
pub open spec fn explicit_resolved(r: ResolvedIcRelationship, e: IcRelationshipExplicit, seed: u64) -> bool {
    &&& r.id@ == edge_id(seed, e.seller@, e.buyer@, e.types@[0])
    &&& r.seller@ == e.seller@
    &&& r.buyer@ == e.buyer@
    &&& r.types@ == e.types@
    &&& r.annual_volume == e.annual_volume
    &&& r.transfer_pricing == e.transfer_pricing
    &&& r.markup_percent == e.markup_percent
    &&& r.source == IcSource::Explicit
    &&& r.pattern_index is None
}

/// Pattern `idx` generates the pair of entities `s`, `b`: both on their
/// side, different, the buyer not carried at fair value.
pub open spec fn generates(rels: Seq<IcRelationshipConfig>, idx: int, s: ExpandedEntity, b: ExpandedEntity) -> bool {
    &&& 0 <= idx < rels.len()
    &&& (rels[idx] matches IcRelationshipConfig::Pattern(p) && {
        &&& side_ok(s, p.pattern.seller, p.pattern.seller_scoping_profile)
        &&& side_ok(b, p.pattern.buyer, p.pattern.buyer_scoping_profile)
        &&& s.code@ != b.code@
        &&& b.consolidation_method != ConsolidationMethod::FairValue
    })
}

/// The first type of pattern `idx`.
pub open spec fn pattern_first_type(rels: Seq<IcRelationshipConfig>, idx: int) -> IcTransactionType {
    match rels[idx] {
        IcRelationshipConfig::Pattern(p) => p.types@[0],
        IcRelationshipConfig::Explicit(e) => e.types@[0],
    }
}

/// `r` is the edge of pattern `idx` between `s` and `b`.
pub open spec fn pattern_resolved(
    r: ResolvedIcRelationship,
    rels: Seq<IcRelationshipConfig>,
    idx: int,
    s: ExpandedEntity,
    b: ExpandedEntity,
    seed: u64,
) -> bool {
    &&& generates(rels, idx, s, b)
    &&& (rels[idx] matches IcRelationshipConfig::Pattern(p) && {
        &&& r.id@ == edge_id(seed, s.code@, b.code@, p.types@[0])
        &&& r.seller@ == s.code@
        &&& r.buyer@ == b.code@
        &&& r.types@ == p.types@
        &&& r.annual_volume == p.per_pair_volume
        &&& r.transfer_pricing == p.transfer_pricing
        &&& r.markup_percent is None
        &&& r.source == IcSource::Pattern
        &&& r.pattern_index == Some(idx as usize)
    })
}

/// `r` is an edge of some pattern between two entities.
pub open spec fn from_some_pattern(r: ResolvedIcRelationship, rels: Seq<IcRelationshipConfig>, es: Seq<ExpandedEntity>, seed: u64) -> bool {
    exists|idx: int, si: int, bi: int|
        0 <= si < es.len() && 0 <= bi < es.len() && #[trigger] pattern_resolved(r, rels, idx, es[si], es[bi], seed)
}

fn resolve_explicit(e: &IcRelationshipExplicit, group_seed: u64) -> (r: ResolvedIcRelationship)
    requires
        e.types@.len() > 0,
    ensures
        explicit_resolved(r, *e, group_seed),
{
    let first = e.types[0];
    let mut types: Vec<IcTransactionType> = Vec::new();
    let mut i: usize = 0;
    while i < e.types.len()
        invariant
            i <= e.types@.len(),
            types@ == e.types@.take(i as int),
        decreases e.types.len() - i,
    {
        types.push(e.types[i]);
        proof {
            assert(types@ =~= e.types@.take(i + 1));
        }
        i = i + 1;
    }
    proof {
        assert(e.types@.take(i as int) =~= e.types@);
    }
    ResolvedIcRelationship {
        id: hash_id(group_seed, e.seller.as_str(), e.buyer.as_str(), first),
        seller: e.seller.clone(),
        buyer: e.buyer.clone(),
        types,
        annual_volume: e.annual_volume,
        transfer_pricing: e.transfer_pricing,
        markup_percent: e.markup_percent,
        source: IcSource::Explicit,
        pattern_index: None,
    }
}

fn copy_types(v: &Vec<IcTransactionType>) -> (r: Vec<IcTransactionType>)
    ensures
        r@ == v@,
{
    let mut types: Vec<IcTransactionType> = Vec::new();
    let mut i: usize = 0;
    while i < v.len()
        invariant
            i <= v@.len(),
            types@ == v@.take(i as int),
        decreases v.len() - i,
    {
        types.push(v[i]);
        proof {
            assert(types@ =~= v@.take(i + 1));
        }
        i = i + 1;
    }
    proof {
        assert(v@.take(i as int) =~= v@);
    }
    types
}

fn entity_known(entities: &[ExpandedEntity], code: &str) -> (r: bool)
    ensures
        r == known(entities@, code@),
{
    let mut k: usize = 0;
    while k < entities.len()
        invariant
            k <= entities@.len(),
            forall|j: int| 0 <= j < k ==> (#[trigger] entities@[j]).code@ != code@,
        decreases entities.len() - k,
    {
        if str_eq(entities[k].code.as_str(), code) {
            return true;
        }
        k = k + 1;
    }
    false
}

fn triple_seen(out: &Vec<ResolvedIcRelationship>, seller: &str, buyer: &str, t: IcTransactionType) -> (r: bool)
    requires
        forall|k: int| 0 <= k < out@.len() ==> (#[trigger] out@[k]).types@.len() > 0,
    ensures
        r == exists|k: int| 0 <= k < out@.len() && #[trigger] triple(out@[k]) == (seller@, buyer@, t),
{
    let mut k: usize = 0;
    while k < out.len()
        invariant
            k <= out@.len(),
            forall|j: int| 0 <= j < out@.len() ==> (#[trigger] out@[j]).types@.len() > 0,
            forall|j: int| 0 <= j < k ==> #[trigger] triple(out@[j]) != (seller@, buyer@, t),
        decreases out.len() - k,
    {
        if str_eq(out[k].seller.as_str(), seller) && str_eq(out[k].buyer.as_str(), buyer) && out[k].types[0] == t {
            proof {
                assert(triple(out@[k as int]) == (seller@, buyer@, t));
            }
            return true;
        }
        k = k + 1;
    }
    false
}

/// Indices of the entities on a pattern side, in entity order.
fn side_indices(es: &[ExpandedEntity], fixed: &Option<String>, profile: &Option<String>) -> (r: Vec<usize>)
    ensures
        forall|k: int| 0 <= k < r@.len() ==> r@[k] < es@.len() && side_ok(es@[r@[k] as int], *fixed, *profile),
        forall|si: int| 0 <= si < es@.len() && side_ok(#[trigger] es@[si], *fixed, *profile) ==> exists|k: int|
            0 <= k < r@.len() && r@[k] == si,
{
    let mut out: Vec<usize> = Vec::new();
    let mut i: usize = 0;
    while i < es.len()
        invariant
            i <= es@.len(),
            forall|k: int| 0 <= k < out@.len() ==> out@[k] < es@.len() && side_ok(es@[out@[k] as int], *fixed, *profile),
            forall|si: int| 0 <= si < i && side_ok(#[trigger] es@[si], *fixed, *profile) ==> exists|k: int|
                0 <= k < out@.len() && out@[k] == si,
        decreases es.len() - i,
    {
        let ghost o0 = out@;
        if side_matches(&es[i], fixed, profile) {
            out.push(i);
            proof {
                assert(out@[out@.len() - 1] == i);
            }
        }
        proof {
            assert forall|si: int| 0 <= si < i + 1 && side_ok(#[trigger] es@[si], *fixed, *profile) implies exists|k: int|
                0 <= k < out@.len() && out@[k] == si by {
                if si < i {
                    let k = choose|k: int| 0 <= k < o0.len() && o0[k] == si;
                    assert(out@[k] == si);
                } else {
                    assert(out@[out@.len() - 1] == si);
                }
            }
        }
        i = i + 1;
    }
    out
}

fn resolve_pattern(p: &IcRelationshipPattern, seller: &ExpandedEntity, buyer: &ExpandedEntity, idx: usize, group_seed: u64) -> (r:
    ResolvedIcRelationship)
    requires
        p.types@.len() > 0,
    ensures
        r.id@ == edge_id(group_seed, seller.code@, buyer.code@, p.types@[0]),
        r.seller@ == seller.code@,
        r.buyer@ == buyer.code@,
        r.types@ == p.types@,
        r.annual_volume == p.per_pair_volume,
        r.transfer_pricing == p.transfer_pricing,
        r.markup_percent is None,
        r.source == IcSource::Pattern,
        r.pattern_index == Some(idx),
{
    ResolvedIcRelationship {
        id: hash_id(group_seed, seller.code.as_str(), buyer.code.as_str(), p.types[0]),
        seller: seller.code.clone(),
        buyer: buyer.code.clone(),
        types: copy_types(&p.types),
        annual_volume: p.per_pair_volume,
        transfer_pricing: p.transfer_pricing,
        markup_percent: None,
        source: IcSource::Pattern,
        pattern_index: Some(idx),
    }
}

/// The pattern edges so far: every edge after the explicit ones comes
/// from a pattern before `upto`, in non-decreasing pattern order, with a
/// triple no earlier edge has.
pub open spec fn pattern_part_ok(
    out: Seq<ResolvedIcRelationship>,
    n_ex: int,
    rels: Seq<IcRelationshipConfig>,
    es: Seq<ExpandedEntity>,
    seed: u64,
    upto: int,
) -> bool {
    &&& n_ex <= out.len()
    &&& forall|k: int| 0 <= k < out.len() ==> (#[trigger] out[k]).types@.len() > 0
    &&& forall|k: int| n_ex <= k < out.len() ==> from_some_pattern(#[trigger] out[k], rels, es, seed)
    &&& forall|k: int| n_ex <= k < out.len() ==> ((#[trigger] out[k]).pattern_index matches Some(x) && x < upto)
    &&& forall|a: int, b: int| n_ex <= a < b < out.len() ==> (#[trigger] out[a]).pattern_index->0 <= (#[trigger] out[b]).pattern_index->0
    &&& forall|a: int, b: int| 0 <= a < b < out.len() && n_ex <= b ==> triple(#[trigger] out[a]) != triple(#[trigger] out[b])
}

/// Every pair that pattern `idx` generates has an edge.
pub open spec fn pattern_covered(out: Seq<ResolvedIcRelationship>, rels: Seq<IcRelationshipConfig>, es: Seq<ExpandedEntity>, idx: int) -> bool {
    forall|si: int, bi: int|
        0 <= si < es.len() && 0 <= bi < es.len() && #[trigger] generates(rels, idx, es[si], es[bi]) ==> exists|k: int|
            0 <= k < out.len() && #[trigger] triple(out[k]) == (es[si].code@, es[bi].code@, pattern_first_type(rels, idx))
}

proof fn lemma_covered_grow(
    o0: Seq<ResolvedIcRelationship>,
    o1: Seq<ResolvedIcRelationship>,
    rels: Seq<IcRelationshipConfig>,
    es: Seq<ExpandedEntity>,
    j: int,
)
    requires
        o0.len() <= o1.len(),
        forall|k: int| 0 <= k < o0.len() ==> o1[k] == o0[k],
        pattern_covered(o0, rels, es, j),
    ensures
        pattern_covered(o1, rels, es, j),
{
    assert forall|si: int, bi: int|
        0 <= si < es.len() && 0 <= bi < es.len() && #[trigger] generates(rels, j, es[si], es[bi]) implies exists|k: int|
            0 <= k < o1.len() && #[trigger] triple(o1[k]) == (es[si].code@, es[bi].code@, pattern_first_type(rels, j)) by {
        let k = choose|k: int| 0 <= k < o0.len() && #[trigger] triple(o0[k]) == (es[si].code@, es[bi].code@, pattern_first_type(rels, j));
        assert(o1[k] == o0[k]);
    }
}

/// Expand the configured relationships into edges: the explicit ones in
/// order, then each pattern's pairs, skipping any (seller, buyer, first
/// type) already present.
pub fn expand_ic_relationships(ic: &IntercompanyConfig, expanded_entities: &[ExpandedEntity], group_seed: u64) -> (r: Result<
    Vec<ResolvedIcRelationship>,
    GroupError,
>)
    ensures
        r is Err ==> r matches Err(GroupError::Config(_)),
        r is Ok <==> forall|i: int| 0 <= i < ic.relationships@.len() ==> rel_ok(#[trigger] ic.relationships@[i], expanded_entities@),
        r matches Ok(out) ==> {
            let rels = ic.relationships@;
            let es = expanded_entities@;
            let ex = explicit_rels(rels);
            &&& ex.len() <= out@.len()
            &&& forall|k: int| 0 <= k < ex.len() ==> explicit_resolved(#[trigger] out@[k], ex[k], group_seed)
            &&& pattern_part_ok(out@, ex.len() as int, rels, es, group_seed, rels.len() as int)
            &&& forall|idx: int| 0 <= idx < rels.len() ==> #[trigger] pattern_covered(out@, rels, es, idx)
        },
{
    let rels = &ic.relationships;
    let ghost es = expanded_entities@;
    let mut out: Vec<ResolvedIcRelationship> = Vec::new();
    let mut i: usize = 0;
    proof {
        assert(rels@.take(0) =~= Seq::<IcRelationshipConfig>::empty());
    }
    while i < rels.len()
        invariant
            i <= rels@.len(),
            rels@ == ic.relationships@,
            es == expanded_entities@,
            out@.len() == explicit_rels(rels@.take(i as int)).len(),
            forall|k: int| 0 <= k < out@.len() ==> (#[trigger] out@[k]).types@.len() > 0,
            forall|k: int| 0 <= k < out@.len() ==> explicit_resolved(#[trigger] out@[k], explicit_rels(rels@.take(i as int))[k], group_seed),
            forall|t: int| 0 <= t < i && (#[trigger] rels@[t]) is Explicit ==> rel_ok(rels@[t], es),
        decreases rels.len() - i,
    {
        proof {
            assert(rels@.take(i + 1).drop_last() =~= rels@.take(i as int));
            assert(rels@.take(i + 1).last() == rels@[i as int]);
        }
        match &rels[i] {
            IcRelationshipConfig::Explicit(e) => {
                if e.types.len() == 0 {
                    proof {
                        assert(!rel_ok(rels@[i as int], es));
                    }
                    return Err(GroupError::Config("IC relationship has empty types".to_string()));
                }
                if str_eq(e.seller.as_str(), e.buyer.as_str()) {
                    proof {
                        assert(!rel_ok(rels@[i as int], es));
                    }
                    return Err(
                        GroupError::Config("IC relationship has seller == buyer (".to_string().concat(e.seller.as_str()).concat(")")),
                    );
                }
                if !entity_known(expanded_entities, e.seller.as_str()) {
                    proof {
                        assert(!rel_ok(rels@[i as int], es));
                    }
                    return Err(
                        GroupError::Config(
                            "IC relationship references unknown seller entity ".to_string().concat(e.seller.as_str()),
                        ),
                    );
                }
                if !entity_known(expanded_entities, e.buyer.as_str()) {
                    proof {
                        assert(!rel_ok(rels@[i as int], es));
                    }
                    return Err(
                        GroupError::Config("IC relationship references unknown buyer entity ".to_string().concat(e.buyer.as_str())),
                    );
                }
                let ghost o0 = out@;
                out.push(resolve_explicit(e, group_seed));
                proof {
                    assert forall|k: int| 0 <= k < out@.len() implies explicit_resolved(#[trigger] out@[k], explicit_rels(rels@.take(i + 1))[k], group_seed) by {
                        if k < o0.len() {
                            assert(out@[k] == o0[k]);
                        }
                    }
                }
            },
            IcRelationshipConfig::Pattern(_) => {},
        }
        i = i + 1;
    }
    proof {
        assert(rels@.take(i as int) =~= rels@);
    }
    let n_ex = out.len();
    let mut idx: usize = 0;
    while idx < rels.len()
        invariant
            idx <= rels@.len(),
            rels@ == ic.relationships@,
            es == expanded_entities@,
            n_ex == explicit_rels(rels@).len(),
            forall|k: int| 0 <= k < n_ex ==> explicit_resolved(#[trigger] out@[k], explicit_rels(rels@)[k], group_seed),
            forall|t: int| 0 <= t < rels@.len() && (#[trigger] rels@[t]) is Explicit ==> rel_ok(rels@[t], es),
            forall|t: int| 0 <= t < idx ==> rel_ok(#[trigger] rels@[t], es),
            pattern_part_ok(out@, n_ex as int, rels@, es, group_seed, idx as int),
            forall|j: int| 0 <= j < idx ==> #[trigger] pattern_covered(out@, rels@, es, j),
        decreases rels.len() - idx,
    {
        match &rels[idx] {
            IcRelationshipConfig::Pattern(p) => {
                if p.types.len() == 0 {
                    return Err(GroupError::Config("IC pattern has empty types".to_string()));
                }
                let first = p.types[0];
                let sellers = side_indices(expanded_entities, &p.pattern.seller, &p.pattern.seller_scoping_profile);
                let buyers = side_indices(expanded_entities, &p.pattern.buyer, &p.pattern.buyer_scoping_profile);
                let mut a: usize = 0;
                while a < sellers.len()
                    invariant
                        a <= sellers@.len(),
                        idx < rels@.len(),
                        rels@ == ic.relationships@,
                        es == expanded_entities@,
                        rels@[idx as int] == IcRelationshipConfig::Pattern(*p),
                        p.types@.len() > 0,
                        first == p.types@[0],
                        n_ex == explicit_rels(rels@).len(),
                        forall|k: int| 0 <= k < n_ex ==> explicit_resolved(#[trigger] out@[k], explicit_rels(rels@)[k], group_seed),
                        pattern_part_ok(out@, n_ex as int, rels@, es, group_seed, idx + 1),
                        forall|j: int| 0 <= j < idx ==> #[trigger] pattern_covered(out@, rels@, es, j),
                        forall|k: int| 0 <= k < sellers@.len() ==> sellers@[k] < es.len() && side_ok(
                            es[sellers@[k] as int],
                            p.pattern.seller,
                            p.pattern.seller_scoping_profile,
                        ),
                        forall|k: int| 0 <= k < buyers@.len() ==> buyers@[k] < es.len() && side_ok(
                            es[buyers@[k] as int],
                            p.pattern.buyer,
                            p.pattern.buyer_scoping_profile,
                        ),
                        forall|x: int, y: int|
                            0 <= x < a && 0 <= y < buyers@.len() && #[trigger] generates(
                                rels@,
                                idx as int,
                                es[sellers@[x] as int],
                                es[buyers@[y] as int],
                            ) ==> exists|k: int|
                                0 <= k < out@.len() && #[trigger] triple(out@[k]) == (
                                    es[sellers@[x] as int].code@,
                                    es[buyers@[y] as int].code@,
                                    first,
                                ),
                    decreases sellers@.len() - a,
                {
                    let s = &expanded_entities[sellers[a]];
                    let mut b: usize = 0;
                    while b < buyers.len()
                        invariant
                            a < sellers@.len(),
                            b <= buyers@.len(),
                            idx < rels@.len(),
                            rels@ == ic.relationships@,
                            es == expanded_entities@,
                            rels@[idx as int] == IcRelationshipConfig::Pattern(*p),
                            p.types@.len() > 0,
                            first == p.types@[0],
                            *s == es[sellers@[a as int] as int],
                            n_ex == explicit_rels(rels@).len(),
                            forall|k: int| 0 <= k < n_ex ==> explicit_resolved(#[trigger] out@[k], explicit_rels(rels@)[k], group_seed),
                            pattern_part_ok(out@, n_ex as int, rels@, es, group_seed, idx + 1),
                            forall|j: int| 0 <= j < idx ==> #[trigger] pattern_covered(out@, rels@, es, j),
                            forall|k: int| 0 <= k < sellers@.len() ==> sellers@[k] < es.len() && side_ok(
                                es[sellers@[k] as int],
                                p.pattern.seller,
                                p.pattern.seller_scoping_profile,
                            ),
                            forall|k: int| 0 <= k < buyers@.len() ==> buyers@[k] < es.len() && side_ok(
                                es[buyers@[k] as int],
                                p.pattern.buyer,
                                p.pattern.buyer_scoping_profile,
                            ),
                            forall|x: int, y: int|
                                0 <= y < buyers@.len() && (0 <= x < a || (x == a && y < b)) && #[trigger] generates(
                                    rels@,
                                    idx as int,
                                    es[sellers@[x] as int],
                                    es[buyers@[y] as int],
                                ) ==> exists|k: int|
                                    0 <= k < out@.len() && #[trigger] triple(out@[k]) == (
                                        es[sellers@[x] as int].code@,
                                        es[buyers@[y] as int].code@,
                                        first,
                                    ),
                        decreases buyers@.len() - b,
                    {
                        let bu = &expanded_entities[buyers[b]];
                        let ghost o0 = out@;
                        if !str_eq(s.code.as_str(), bu.code.as_str()) {
                            let fair_value = match bu.consolidation_method {
                                ConsolidationMethod::FairValue => true,
                                _ => false,
                            };
                            if !fair_value {
                                if !triple_seen(&out, s.code.as_str(), bu.code.as_str(), first) {
                                    out.push(resolve_pattern(p, s, bu, idx, group_seed));
                                    proof {
                                        let si = sellers@[a as int] as int;
                                        let bi = buyers@[b as int] as int;
                                        assert(generates(rels@, idx as int, es[si], es[bi]));
                                        assert(pattern_resolved(out@[out@.len() - 1], rels@, idx as int, es[si], es[bi], group_seed));
                                        assert(triple(out@[out@.len() - 1]) == (es[si].code@, es[bi].code@, first));
                                    }
                                }
                            }
                        }
                        proof {
                            assert(o0.len() <= out@.len());
                            assert forall|k: int| 0 <= k < o0.len() implies out@[k] == o0[k] by {}
                            assert forall|j: int| 0 <= j < idx implies #[trigger] pattern_covered(out@, rels@, es, j) by {
                                lemma_covered_grow(o0, out@, rels@, es, j);
                            }
                            assert forall|x: int, y: int|
                                0 <= y < buyers@.len() && (0 <= x < a || (x == a && y < b + 1)) && #[trigger] generates(
                                    rels@,
                                    idx as int,
                                    es[sellers@[x] as int],
                                    es[buyers@[y] as int],
                                ) implies exists|k: int|
                                    0 <= k < out@.len() && #[trigger] triple(out@[k]) == (
                                        es[sellers@[x] as int].code@,
                                        es[buyers@[y] as int].code@,
                                        first,
                                    ) by {
                                if x == a && y == b {
                                    let si = sellers@[a as int] as int;
                                    let bi = buyers@[b as int] as int;
                                    if !(exists|k: int| 0 <= k < o0.len() && #[trigger] triple(o0[k]) == (es[si].code@, es[bi].code@, first)) {
                                        assert(triple(out@[out@.len() - 1]) == (es[si].code@, es[bi].code@, first));
                                    } else {
                                        let k = choose|k: int| 0 <= k < o0.len() && #[trigger] triple(o0[k]) == (es[si].code@, es[bi].code@, first);
                                        assert(out@[k] == o0[k]);
                                    }
                                } else {
                                    let k = choose|k: int|
                                        0 <= k < o0.len() && #[trigger] triple(o0[k]) == (
                                            es[sellers@[x] as int].code@,
                                            es[buyers@[y] as int].code@,
                                            first,
                                        );
                                    assert(out@[k] == o0[k]);
                                }
                            }
                        }
                        b = b + 1;
                    }
                    a = a + 1;
                }
            },
            IcRelationshipConfig::Explicit(_) => {},
        }
        idx = idx + 1;
    }
    Ok(out)
}

} // verus!
