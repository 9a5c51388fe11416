//! Identifiers of Investigations and Engineering Objects.

use vstd::prelude::*;
use crate::text::{hex_fixed, push_hex_fixed, to_string};

verus! {

/// Identifier of an Engineering Object (a 128-bit UUID value).
#[derive(Clone, Copy, PartialEq, Eq, Debug, Hash, Structural)]
pub struct ObjectId {
    pub value: u128,
}

/// Identifier of an Investigation (a 128-bit UUID value).
#[derive(Clone, Copy, PartialEq, Eq, Debug, Hash, Structural)]
pub struct InvestigationId {
    pub value: u128,
}

/// Length of a fixed-width hexadecimal rendering.
pub proof fn lemma_hex_fixed_len(v: nat, count: nat)
    ensures
        hex_fixed(v, count).len() == count,
    decreases count,
{
    if count > 0 {
        lemma_hex_fixed_len(v / 16, (count - 1) as nat);
    }
}

/// Canonical hyphenated lowercase text of a 128-bit UUID value: the 32
/// hexadecimal digits, with a hyphen before digits 8, 12, 16 and 20
/// (`8-4-4-4-12`).
pub open spec fn uuid_text(v: u128) -> Seq<char> {
    uuid_prefix(hex_fixed(v as nat, 32), 32)
}

/// Canonical text of a UUID value, as characters.
pub fn uuid_chars(v: u128) -> (r: Vec<char>)
    ensures
        r@ == uuid_text(v),
{
    let mut h: Vec<char> = Vec::new();
    push_hex_fixed(&mut h, v, 32);
    proof {
        lemma_hex_fixed_len(v as nat, 32);
    }
    let mut r: Vec<char> = Vec::new();
    let mut i: usize = 0;
    while i < 32
        invariant
            h@ == hex_fixed(v as nat, 32),
            h@.len() == 32,
            i <= 32,
            r@ == uuid_prefix(h@, i as int),
        decreases 32 - i,
    {
        if i == 8 || i == 12 || i == 16 || i == 20 {
            r.push('-');
        }
        r.push(h[i]);
        i = i + 1;
    }
    r
}

/// The rendering of the first `i` hex digits with hyphens inserted.
pub open spec fn uuid_prefix(h: Seq<char>, i: int) -> Seq<char>
    decreases i,
{
    if i <= 0 {
        Seq::empty()
    } else {
        let before = uuid_prefix(h, i - 1);
        let with_dash = if i - 1 == 8 || i - 1 == 12 || i - 1 == 16 || i - 1 == 20 {
            before.push('-')
        } else {
            before
        };
        with_dash.push(h[i - 1])
    }
}

/// Wraps `RandomState::new`: a hasher state whose keys are drawn at random.
/// Nothing is claimed of it.
#[verifier::external_body]
fn random_state() -> (s: std::collections::hash_map::RandomState) {
    std::collections::hash_map::RandomState::new()
}

/// Wraps `BuildHasher::hash_one` on a `RandomState`. The keys are random, so
/// nothing is claimed of the value.
#[verifier::external_body]
fn hash_one_u64(state: &std::collections::hash_map::RandomState, x: u64) -> (h: u64) {
    std::hash::BuildHasher::hash_one(state, x)
}

/// A version-4 (random) UUID value: the version nibble (bits 76 to 79) is 4
/// and the variant bits (62 and 63) are `10`.
pub open spec fn is_uuid_v4(v: u128) -> bool {
    &&& (v >> 76u128) & 0xFu128 == 4u128
    &&& (v >> 62u128) & 0x3u128 == 2u128
}

/// A fresh random version-4 UUID value: 122 random bits, the version nibble
/// set to 4 and the variant bits to `10`.
pub fn fresh_object_id() -> (id: ObjectId)
    ensures
        is_uuid_v4(id.value),
{
    let state = random_state();
    let a = hash_one_u64(&state, 0);
    let b = hash_one_u64(&state, 1);
    let high: u64 = (a & 0xFFFF_FFFF_FFFF_0FFF) | 0x0000_0000_0000_4000;
    let low: u64 = (b & 0x3FFF_FFFF_FFFF_FFFF) | 0x8000_0000_0000_0000;
    let value: u128 = ((high as u128) << 64u128) | (low as u128);
    assert((value >> 76u128) & 0xFu128 == 4u128) by (bit_vector)
        requires
            high == (a & 0xFFFF_FFFF_FFFF_0FFFu64) | 0x4000u64,
            value == ((high as u128) << 64u128) | (low as u128),
    ;
    assert((value >> 62u128) & 0x3u128 == 2u128) by (bit_vector)
        requires
            low == (b & 0x3FFF_FFFF_FFFF_FFFFu64) | 0x8000_0000_0000_0000u64,
            value == ((high as u128) << 64u128) | (low as u128),
    ;
    ObjectId { value }
}

/// The identifier of a record derived from the object `seed`: the record's
/// `kind` and its `position` among the records of that kind mixed into the
/// seed. The same seed, kind and position always give the same identifier.
pub open spec fn derived_record_id(seed: ObjectId, kind: u8, position: usize) -> ObjectId {
    ObjectId { value: seed.value ^ (((kind as u128) << 120u128) | (position as u128)) }
}

/// The identifier of a derived record (see `derived_record_id`).
pub fn record_id(seed: ObjectId, kind: u8, position: usize) -> (id: ObjectId)
    ensures
        id == derived_record_id(seed, kind, position),
{
    ObjectId { value: seed.value ^ (((kind as u128) << 120u128) | (position as u128)) }
}

/// A copy of a list of object identifiers.
pub fn copy_object_ids(v: &Vec<ObjectId>) -> (r: Vec<ObjectId>)
    ensures
        r@ == v@,
{
    let mut r: Vec<ObjectId> = Vec::new();
    let mut i: usize = 0;
    while i < v.len()
        invariant
            i <= v@.len(),
            r@ == v@.subrange(0, i as int),
        decreases v.len() - i,
    {
        r.push(v[i]);
        i = i + 1;
        assert(r@ =~= v@.subrange(0, i as int));
    }
    assert(v@.subrange(0, v@.len() as int) =~= v@);
    r
}

impl ObjectId {
    /// A fresh random (version-4) identifier.
    pub fn new() -> (id: ObjectId)
        ensures
            is_uuid_v4(id.value),
    {
        fresh_object_id()
    }

    /// Canonical text of the identifier.
    pub open spec fn text(self) -> Seq<char> {
        uuid_text(self.value)
    }

    /// Canonical text of the identifier, as characters.
    pub fn to_chars(&self) -> (r: Vec<char>)
        ensures
            r@ == self.text(),
    {
        uuid_chars(self.value)
    }

    /// Canonical text of the identifier (`Display`).
    pub fn to_text(&self) -> (r: String)
        ensures
            r@ == self.text(),
    {
        to_string(&self.to_chars())
    }
}

impl InvestigationId {
    /// A fresh random (version-4) identifier.
    pub fn new() -> (id: InvestigationId)
        ensures
            is_uuid_v4(id.value),
    {
        InvestigationId { value: fresh_object_id().value }
    }

    /// Canonical text of the identifier.
    pub open spec fn text(self) -> Seq<char> {
        uuid_text(self.value)
    }

    /// Canonical text of the identifier, as characters.
    pub fn to_chars(&self) -> (r: Vec<char>)
        ensures
            r@ == self.text(),
    {
        uuid_chars(self.value)
    }

    /// Canonical text of the identifier (`Display`).
    pub fn to_text(&self) -> (r: String)
        ensures
            r@ == self.text(),
    {
        to_string(&self.to_chars())
    }
}


/// A 120-bit polynomial hash of a text.
pub open spec fn text_hash(s: Seq<char>) -> u128
    decreases s.len(),
{
    if s.len() == 0 {
        0
    } else {
        ((text_hash(s.drop_last()) as int * 31 + (s.last() as u32) as int) % 0x1000000000000000000000000000000int) as u128
    }
}

/// The identifier of the derived relationship with this identity between
/// two Investigations (the same whichever end comes first).
pub open spec fn derived_relationship_id(a: u128, b: u128, identity: Seq<char>) -> ObjectId {
    ObjectId { value: a ^ b ^ text_hash(identity) }
}

/// The identifier of a derived relationship (see `derived_relationship_id`).
pub fn relationship_id(a: u128, b: u128, identity: &Vec<char>) -> (id: ObjectId)
    ensures
        id == derived_relationship_id(a, b, identity@),
{
    let mut h: u128 = 0;
    let mut i: usize = 0;
    while i < identity.len()
        invariant
            i <= identity@.len(),
            h == text_hash(identity@.subrange(0, i as int)),
            h < 0x1000000000000000000000000000000,
        decreases identity.len() - i,
    {
        let ghost sub = identity@.subrange(0, i + 1);
        assert(sub.drop_last() =~= identity@.subrange(0, i as int));
        let c = identity[i] as u32;
        h = (h * 31 + c as u128) % 0x1000000000000000000000000000000;
        i = i + 1;
    }
    assert(identity@.subrange(0, identity@.len() as int) =~= identity@);
    ObjectId { value: a ^ b ^ h }
}

} // verus!
