use vstd::bytes::lemma_auto_spec_u128_to_from_le_bytes;
use vstd::bytes::lemma_auto_spec_u64_to_from_le_bytes;
use vstd::bytes::spec_u128_from_le_bytes;
use vstd::bytes::spec_u128_to_le_bytes;
use vstd::bytes::spec_u64_from_le_bytes;
use vstd::bytes::spec_u64_to_le_bytes;
use vstd::bytes::u128_to_le_bytes;
use vstd::bytes::u64_to_le_bytes;
use vstd::prelude::*;

verus! {

/// A key of the balance map.
///
/// The map only needs a deterministic, collision-free byte form of each key:
/// the same key always encodes to the same bytes, and distinct keys never
/// encode to the same bytes.  The store is addressed by those bytes alone.
pub trait KeyEncode: Sized {
    /// The byte form under which this key addresses the underlying store.
    spec fn key_encoding(self) -> Seq<u8>;

    /// Distinct keys never share a byte encoding.
    proof fn lemma_key_encoding_injective(self, other: Self)
        requires
            self.key_encoding() == other.key_encoding(),
        ensures
            self == other,
    ;

    /// Encodes this key for the underlying store.
    fn encode_key(&self) -> (r: Vec<u8>)
        ensures
            r@ == self.key_encoding(),
    ;
}

impl KeyEncode for u64 {
    open spec fn key_encoding(self) -> Seq<u8> {
        spec_u64_to_le_bytes(self)
    }

    proof fn lemma_key_encoding_injective(self, other: Self) {
        lemma_auto_spec_u64_to_from_le_bytes();
        assert(spec_u64_from_le_bytes(spec_u64_to_le_bytes(self)) == self);
        assert(spec_u64_from_le_bytes(spec_u64_to_le_bytes(other)) == other);
    }

    fn encode_key(&self) -> (r: Vec<u8>) {
        u64_to_le_bytes(*self)
    }
}

impl KeyEncode for u128 {
    open spec fn key_encoding(self) -> Seq<u8> {
        spec_u128_to_le_bytes(self)
    }

    proof fn lemma_key_encoding_injective(self, other: Self) {
        lemma_auto_spec_u128_to_from_le_bytes();
        assert(spec_u128_to_le_bytes(self).len() == 16);
        assert(spec_u128_to_le_bytes(other).len() == 16);
        assert(spec_u128_from_le_bytes(spec_u128_to_le_bytes(self)) == self);
        assert(spec_u128_from_le_bytes(spec_u128_to_le_bytes(other)) == other);
    }

    fn encode_key(&self) -> (r: Vec<u8>) {
        u128_to_le_bytes(*self)
    }
}

} // verus!
