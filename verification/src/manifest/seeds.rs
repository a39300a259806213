//! Deterministic seed derivation: every seed of the group engine is a
//! blake3 digest of a domain tag, the group seed and what the seed is
//! for, so adding or reordering entities changes no other seed.
use vstd::prelude::*;

use crate::date::{chrono_date, date_text, date_to_string, Date};
use vstd::string::StringSliceAdditionalSpecFns;


verus! {

/// What `blake3::hash` returns for a byte string.
pub uninterp spec fn blake3_digest(data: Seq<u8>) -> Seq<u8>;

/// `blake3::hash`: the 32-byte digest of `data`.  Feeding a hasher the
/// pieces of a message in turn gives the digest of their concatenation.
#[verifier::external_body]
pub(crate) fn blake3_hash(data: &Vec<u8>) -> (r: [u8; 32])
    ensures
        r@ == blake3_digest(data@),
{
    *blake3::hash(data.as_slice()).as_bytes()
}

/// The eight little-endian bytes of `x` (`u64::to_le_bytes`).
pub open spec fn le_bytes(x: u64) -> Seq<u8> {
    Seq::new(8, |i: int| ((x as int / vstd::arithmetic::power::pow(256, i as nat)) % 256) as u8)
}

/// Append the little-endian bytes of `x`.
pub fn push_le_bytes(out: &mut Vec<u8>, x: u64)
    ensures
        final(out)@ == old(out)@ + le_bytes(x),
{
    let ghost start = out@;
    let mut v = x;
    let mut i: usize = 0;
    proof {
        vstd::arithmetic::power::lemma_pow0(256);
    }
    while i < 8
        invariant
            i <= 8,
            start == old(out)@,
            out@ == start + le_bytes(x).take(i as int),
            v as int == x as int / vstd::arithmetic::power::pow(256, i as nat),
        decreases 8 - i,
    {
        let b = (v % 256) as u8;
        proof {
            vstd::arithmetic::power::lemma_pow_positive(256, i as nat);
            vstd::arithmetic::power::lemma_pow_adds(256, i as nat, 1);
            vstd::arithmetic::power::lemma_pow1(256);
            vstd::arithmetic::div_mod::lemma_div_denominator(x as int, vstd::arithmetic::power::pow(256, i as nat), 256);
            assert(b == le_bytes(x)[i as int]);
        }
        out.push(b);
        v = v / 256;
        proof {
            assert(out@ =~= start + le_bytes(x).take(i + 1));
        }
        i = i + 1;
    }
    proof {
        assert(le_bytes(x).take(8) =~= le_bytes(x));
    }
}

/// Append the bytes of `s`.
pub fn push_bytes(out: &mut Vec<u8>, s: &str)
    ensures
        final(out)@ == old(out)@ + s.spec_bytes(),
{
    let b = s.as_bytes();
    let ghost start = out@;
    let mut i: usize = 0;
    while i < b.len()
        invariant
            i <= b@.len(),
            b@ == s.spec_bytes(),
            start == old(out)@,
            out@ == start + b@.take(i as int),
        decreases b.len() - i,
    {
        out.push(b[i]);
        proof {
            assert(out@ =~= start + b@.take(i + 1));
        }
        i = i + 1;
    }
    proof {
        assert(b@.take(i as int) =~= b@);
    }
}

/// The digest of a seed: a tag, the group seed's little-endian bytes,
/// then the subject, hashed together.
pub open spec fn seed_digest(tag: Seq<char>, group_seed: u64, subject: Seq<char>) -> Seq<u8> {
    blake3_digest(vstd::utf8::encode_utf8(tag) + le_bytes(group_seed) + vstd::utf8::encode_utf8(subject))
}

fn seed_of(tag: &str, group_seed: u64, subject: &str) -> (r: [u8; 32])
    ensures
        r@ == seed_digest(tag@, group_seed, subject@),
{
    let mut msg: Vec<u8> = Vec::new();
    push_bytes(&mut msg, tag);
    push_le_bytes(&mut msg, group_seed);
    push_bytes(&mut msg, subject);
    blake3_hash(&msg)
}

/// Seed of the manifest-phase work of the period starting on
/// `period_start`.
pub fn derive_manifest_seed(group_seed: u64, period_start: Date) -> (r: [u8; 32])
    requires
        chrono_date(period_start),
    ensures
        r@ == seed_digest("manifest"@, group_seed, date_text(period_start)),
{
    let d = date_to_string(period_start);
    seed_of("manifest", group_seed, d.as_str())
}

/// Seed of one entity, independent of the other entities.
pub fn derive_entity_seed(group_seed: u64, entity_code: &str) -> (r: [u8; 32])
    ensures
        r@ == seed_digest("entity"@, group_seed, entity_code@),
{
    seed_of("entity", group_seed, entity_code)
}

/// Seed of the aggregate-phase work of the period starting on
/// `period_start`.
pub fn derive_aggregate_seed(group_seed: u64, period_start: Date) -> (r: [u8; 32])
    requires
        chrono_date(period_start),
    ensures
        r@ == seed_digest("aggregate"@, group_seed, date_text(period_start)),
{
    let d = date_to_string(period_start);
    seed_of("aggregate", group_seed, d.as_str())
}

/// Identifier of one pair instance of an intercompany relationship; both
/// legs derive the same value from the same inputs.
pub fn derive_ic_pair_id(group_seed: u64, ic_relationship_id: &str, pair_index: u64) -> (r: [u8; 32])
    ensures
        r@ == blake3_digest(
            vstd::utf8::encode_utf8("ic_pair"@) + le_bytes(group_seed) + vstd::utf8::encode_utf8(ic_relationship_id@)
                + le_bytes(pair_index),
        ),
{
    let mut msg: Vec<u8> = Vec::new();
    push_bytes(&mut msg, "ic_pair");
    push_le_bytes(&mut msg, group_seed);
    push_bytes(&mut msg, ic_relationship_id);
    push_le_bytes(&mut msg, pair_index);
    blake3_hash(&msg)
}

} // verus!
