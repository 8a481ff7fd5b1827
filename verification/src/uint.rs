use vstd::bytes::lemma_auto_spec_u128_to_from_le_bytes;
use vstd::bytes::lemma_auto_spec_u64_to_from_le_bytes;
use vstd::bytes::spec_u128_from_le_bytes;
use vstd::bytes::spec_u128_to_le_bytes;
use vstd::bytes::spec_u64_from_le_bytes;
use vstd::bytes::spec_u64_to_le_bytes;
use vstd::bytes::u128_from_le_bytes;
use vstd::bytes::u128_to_le_bytes;
use vstd::bytes::u64_from_le_bytes;
use vstd::bytes::u64_to_le_bytes;
use vstd::prelude::*;

verus! {

/// A fixed-width unsigned magnitude.
///
/// A magnitude offers checked addition and subtraction — an explicit "no
/// value" instead of wrapping past the width's maximum or below zero — and an
/// exact byte encoding, so that balances round-trip through the underlying
/// store without loss.
pub trait UInt: Sized + Copy {
    /// The mathematical value of this magnitude.
    spec fn as_nat(self) -> nat;

    /// The largest value the width can represent.
    spec fn max_spec() -> nat;

    /// The byte representation written to the underlying store.
    spec fn encoding(self) -> Seq<u8>;

    /// Every value of the width lies within its range.
    proof fn lemma_as_nat_bound(self)
        ensures
            self.as_nat() <= Self::max_spec(),
    ;

    /// Distinct values never share a byte encoding.
    proof fn lemma_encoding_injective(self, other: Self)
        requires
            self.encoding() == other.encoding(),
        ensures
            self == other,
    ;

    /// The zero magnitude, the balance of every absent entry.
    fn zero() -> (r: Self)
        ensures
            r.as_nat() == 0,
    ;

    /// Checked addition: the exact sum, or `None` when the sum would exceed
    /// the width's maximum.
    fn add(self, other: Self) -> (r: Option<Self>)
        ensures
            self.as_nat() + other.as_nat() <= Self::max_spec() ==> (r matches Some(v)
                && v.as_nat() == self.as_nat() + other.as_nat()),
            self.as_nat() + other.as_nat() > Self::max_spec() ==> r is None,
    ;

    /// Checked subtraction: the exact difference, or `None` when the result
    /// would go below zero.
    fn sub(self, other: Self) -> (r: Option<Self>)
        ensures
            other.as_nat() <= self.as_nat() ==> (r matches Some(v)
                && v.as_nat() == self.as_nat() - other.as_nat()),
            other.as_nat() > self.as_nat() ==> r is None,
    ;

    /// Encodes this magnitude for the underlying store.
    fn encode(self) -> (r: Vec<u8>)
        ensures
            r@ == self.encoding(),
    ;

    /// Decodes a stored byte representation; `None` when the bytes are not
    /// the encoding of any value of this width.
    fn decode(bytes: &[u8]) -> (r: Option<Self>)
        ensures
            match r {
                Some(v) => v.encoding() == bytes@,
                None => forall|v: Self| v.encoding() != bytes@,
            },
    ;
}

impl UInt for u64 {
    open spec fn as_nat(self) -> nat {
        self as nat
    }

    open spec fn max_spec() -> nat {
        u64::MAX as nat
    }

    open spec fn encoding(self) -> Seq<u8> {
        spec_u64_to_le_bytes(self)
    }

    proof fn lemma_as_nat_bound(self) {
    }

    proof fn lemma_encoding_injective(self, other: Self) {
        lemma_auto_spec_u64_to_from_le_bytes();
        assert(spec_u64_from_le_bytes(spec_u64_to_le_bytes(self)) == self);
        assert(spec_u64_from_le_bytes(spec_u64_to_le_bytes(other)) == other);
    }

    fn zero() -> (r: Self) {
        0
    }

    fn add(self, other: Self) -> (r: Option<Self>) {
        self.checked_add(other)
    }

    fn sub(self, other: Self) -> (r: Option<Self>) {
        self.checked_sub(other)
    }

    fn encode(self) -> (r: Vec<u8>) {
        u64_to_le_bytes(self)
    }

    fn decode(bytes: &[u8]) -> (r: Option<Self>) {
        if bytes.len() == 8 {
            let x = u64_from_le_bytes(bytes);
            proof {
                lemma_auto_spec_u64_to_from_le_bytes();
            }
            Some(x)
        } else {
            proof {
                lemma_auto_spec_u64_to_from_le_bytes();
                assert forall|v: u64| v.encoding() != bytes@ by {
                    assert(spec_u64_to_le_bytes(v).len() == 8);
                }
            }
            None
        }
    }
}

impl UInt for u128 {
    open spec fn as_nat(self) -> nat {
        self as nat
    }

    open spec fn max_spec() -> nat {
        u128::MAX as nat
    }

    open spec fn encoding(self) -> Seq<u8> {
        spec_u128_to_le_bytes(self)
    }

    proof fn lemma_as_nat_bound(self) {
    }

    proof fn lemma_encoding_injective(self, other: Self) {
        lemma_auto_spec_u128_to_from_le_bytes();
        assert(spec_u128_to_le_bytes(self).len() == 16);
        assert(spec_u128_to_le_bytes(other).len() == 16);
        assert(spec_u128_from_le_bytes(spec_u128_to_le_bytes(self)) == self);
        assert(spec_u128_from_le_bytes(spec_u128_to_le_bytes(other)) == other);
    }

    fn zero() -> (r: Self) {
        0
    }

    fn add(self, other: Self) -> (r: Option<Self>) {
        self.checked_add(other)
    }

    fn sub(self, other: Self) -> (r: Option<Self>) {
        self.checked_sub(other)
    }

    fn encode(self) -> (r: Vec<u8>) {
        u128_to_le_bytes(self)
    }

    fn decode(bytes: &[u8]) -> (r: Option<Self>) {
        if bytes.len() == 16 {
            let x = u128_from_le_bytes(bytes);
            proof {
                lemma_auto_spec_u128_to_from_le_bytes();
            }
            Some(x)
        } else {
            proof {
                lemma_auto_spec_u128_to_from_le_bytes();
                assert forall|v: u128| v.encoding() != bytes@ by {
                    assert(spec_u128_to_le_bytes(v).len() == 16);
                }
            }
            None
        }
    }
}

} // verus!
