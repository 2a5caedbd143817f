//! Identifiers of game objects, built on the key encoding of `slotmap`.

use vstd::prelude::*;

verus! {

/// The value that `slotmap` gives for a key decoded from `value` and encoded
/// again: the version half is forced odd, the index half is kept.
pub open spec fn canonical_ffi(value: u64) -> u64 {
    value | 0x1_0000_0000u64
}

/// Calls `slotmap::KeyData::from_ffi` followed by `KeyData::as_ffi`.
/// The source of slotmap 1.1 keeps the low 32 bits as the index and
/// forces the version (high 32 bits) to be odd, so the round trip sets bit 32.
#[verifier::external_body]
fn key_data_roundtrip(value: u64) -> (r: u64)
    ensures
        r == canonical_ffi(value),
{
    slotmap::KeyData::from_ffi(value).as_ffi()
}

/// Calls `<slotmap::KeyData as Default>::default` and encodes it with
/// `as_ffi`. In slotmap 1.1 the default key is the null key, index
/// `u32::MAX` with version 1.
#[verifier::external_body]
fn null_key_data_ffi() -> (r: u64)
    ensures
        r == 0x1_ffff_ffffu64,
{
    slotmap::KeyData::default().as_ffi()
}

/// Uniquely identifies a game object within the world.
///
/// The identifier holds the 64-bit encoding of a slot map key.
#[derive(Clone, Copy, PartialEq, Eq, Structural, Debug, Hash, PartialOrd, Ord)]
pub struct GameObjectId {
    pub(crate) ffi: u64,
}

impl View for GameObjectId {
    type V = u64;

    /// The 64-bit encoding of the identifier.
    closed spec fn view(&self) -> u64 {
        self.ffi
    }
}

/// Identifiers with the same encoding are the same identifier.
pub proof fn lemma_id_view_injective(a: GameObjectId, b: GameObjectId)
    requires
        a@ == b@,
    ensures
        a == b,
{
}

impl GameObjectId {
    /// The slot index half of the key.
    pub open spec fn spec_index(self) -> u64 {
        self@ & 0xffff_ffffu64
    }

    /// A key is null when its index half is `u32::MAX`.
    pub open spec fn spec_is_null(self) -> bool {
        self.spec_index() == 0xffff_ffffu64
    }

    /// The null identifier, which never names an object.
    pub fn null() -> (r: Self)
        ensures
            r@ == 0x1_ffff_ffffu64,
            r.spec_is_null(),
    {
        let v = null_key_data_ffi();
        assert(v & 0xffff_ffffu64 == 0xffff_ffffu64) by (bit_vector)
            requires v == 0x1_ffff_ffffu64;
        GameObjectId { ffi: v }
    }

    /// Returns `true` if this is the null identifier.
    pub fn is_null(&self) -> (r: bool)
        ensures
            r == self.spec_is_null(),
    {
        (self.ffi & 0xffff_ffffu64) == 0xffff_ffffu64
    }

    /// The 64-bit encoding of this identifier.
    pub fn as_ffi(&self) -> (r: u64)
        ensures
            r == self@,
    {
        self.ffi
    }

    /// Decodes an identifier from its 64-bit encoding.
    pub fn from_ffi(id: u64) -> (r: Self)
        ensures
            r@ == canonical_ffi(id),
    {
        GameObjectId { ffi: key_data_roundtrip(id) }
    }
}

/// Identifies a component within the world's component storage, by the
/// 64-bit encoding of a slot map key.
#[derive(Clone, Copy, PartialEq, Eq, Structural, Debug, Hash, PartialOrd, Ord)]
pub struct ComponentId {
    pub(crate) ffi: u64,
}

impl View for ComponentId {
    type V = u64;

    /// The 64-bit encoding of the identifier.
    closed spec fn view(&self) -> u64 {
        self.ffi
    }
}

impl ComponentId {
    /// The null identifier, which never names a component.
    pub fn null() -> (r: Self)
        ensures
            r@ == 0x1_ffff_ffffu64,
    {
        ComponentId { ffi: null_key_data_ffi() }
    }

    /// Returns `true` if the index half of the key is `u32::MAX`.
    pub fn is_null(&self) -> (r: bool)
        ensures
            r == (self@ & 0xffff_ffffu64 == 0xffff_ffffu64),
    {
        (self.ffi & 0xffff_ffffu64) == 0xffff_ffffu64
    }

    /// The 64-bit encoding of this identifier.
    pub fn as_ffi(&self) -> (r: u64)
        ensures
            r == self@,
    {
        self.ffi
    }

    /// Decodes an identifier from its 64-bit encoding.
    pub fn from_ffi(id: u64) -> (r: Self)
        ensures
            r@ == canonical_ffi(id),
    {
        ComponentId { ffi: key_data_roundtrip(id) }
    }
}

/// Decoding is idempotent: an identifier decoded from the encoding of a
/// decoded identifier is the same identifier.
pub proof fn law_ffi_roundtrip(value: u64)
    ensures
        canonical_ffi(canonical_ffi(value)) == canonical_ffi(value),
        canonical_ffi(value) & 0xffff_ffffu64 == value & 0xffff_ffffu64,
{
    assert(((value | 0x1_0000_0000u64) | 0x1_0000_0000u64) == (value | 0x1_0000_0000u64)) by (bit_vector);
    assert((value | 0x1_0000_0000u64) & 0xffff_ffffu64 == value & 0xffff_ffffu64) by (bit_vector);
}

} // verus!
