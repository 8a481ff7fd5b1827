use crate::context::Context;
use crate::error::Error;
use crate::key::KeyEncode;
use crate::uint::UInt;
use core::marker::PhantomData;
use vstd::prelude::*;

verus! {

/// The stored bytes are the encoding of some magnitude of width `V`.
pub open spec fn wf_value<V: UInt>(bytes: Seq<u8>) -> bool {
    exists|v: V| v.encoding() == bytes
}

/// The magnitude a well-formed entry holds.
pub open spec fn stored_value<V: UInt>(bytes: Seq<u8>) -> V {
    choose|v: V| v.encoding() == bytes
}

/// The entry under `kb`, if there is one, decodes to a magnitude of width
/// `V`.  An absent entry is always readable: it stands for the balance zero.
pub open spec fn readable<V: UInt>(store: Map<Seq<u8>, Seq<u8>>, kb: Seq<u8>) -> bool {
    store.contains_key(kb) ==> wf_value::<V>(store[kb])
}

/// The balance under `kb`: the stored magnitude, or zero for an absent
/// entry.  Meaningful whenever `readable` holds.
pub open spec fn balance<V: UInt>(store: Map<Seq<u8>, Seq<u8>>, kb: Seq<u8>) -> nat {
    if store.contains_key(kb) {
        stored_value::<V>(store[kb]).as_nat()
    } else {
        0
    }
}

/// What a read of the balance under `kb` returns: the stored balance, zero
/// included for an absent entry, or `StorageFailure` exactly when the entry
/// exists but decodes to no magnitude.
pub open spec fn get_post<V: UInt>(
    store: Map<Seq<u8>, Seq<u8>>,
    kb: Seq<u8>,
    r: Result<V, Error>,
) -> bool {
    if readable::<V>(store, kb) {
        r matches Ok(v) && v.as_nat() == balance::<V>(store, kb)
    } else {
        r == Err::<V, Error>(Error::StorageFailure)
    }
}

/// What a credit of `amount` under `kb` does: on success the new total is
/// written and returned; on any failure the store is left untouched.
/// `ArithmeticOverflow` comes exactly when the sum would pass the width's
/// maximum, `StorageFailure` exactly when the current entry is unreadable.
pub open spec fn add_post<V: UInt>(
    pre: Map<Seq<u8>, Seq<u8>>,
    post: Map<Seq<u8>, Seq<u8>>,
    kb: Seq<u8>,
    amount: nat,
    r: Result<V, Error>,
) -> bool {
    if !readable::<V>(pre, kb) {
        r == Err::<V, Error>(Error::StorageFailure) && post == pre
    } else if balance::<V>(pre, kb) + amount > V::max_spec() {
        r == Err::<V, Error>(Error::ArithmeticOverflow) && post == pre
    } else {
        r matches Ok(v) && v.as_nat() == balance::<V>(pre, kb) + amount && post == pre.insert(
            kb,
            v.encoding(),
        )
    }
}

/// What a guarded debit of `amount` under `kb` does: on success the new
/// total is written and returned; on any failure the store is left
/// untouched.  `InsufficientBalance` comes exactly when the debit would
/// drive the balance below zero, `StorageFailure` exactly when the current
/// entry is unreadable.
pub open spec fn sub_post<V: UInt>(
    pre: Map<Seq<u8>, Seq<u8>>,
    post: Map<Seq<u8>, Seq<u8>>,
    kb: Seq<u8>,
    amount: nat,
    r: Result<V, Error>,
) -> bool {
    if !readable::<V>(pre, kb) {
        r == Err::<V, Error>(Error::StorageFailure) && post == pre
    } else if amount > balance::<V>(pre, kb) {
        r == Err::<V, Error>(Error::InsufficientBalance) && post == pre
    } else {
        r matches Ok(v) && v.as_nat() == balance::<V>(pre, kb) - amount && post == pre.insert(
            kb,
            v.encoding(),
        )
    }
}

/// A map from keys to fixed-width unsigned magnitudes.
///
/// The map holds no state of its own: it is a view over the entries of a
/// caller-supplied transactional context, addressing the store through the
/// key's byte encoding.  Every balance it keeps is non-negative by
/// construction, and no operation of it ever wraps around.
pub struct UIntMap<K, V> {
    key_marker: PhantomData<K>,
    value_marker: PhantomData<V>,
}

/// Reads and decodes the balance entry under the encoded key `kb`.
fn read_current<V: UInt>(ctx: &Context, kb: &Vec<u8>) -> (r: Result<V, Error>)
    ensures
        get_post::<V>(ctx@, kb@, r),
{
    match ctx.read(kb) {
        None => Ok(V::zero()),
        Some(bytes) => match V::decode(bytes.as_slice()) {
            Some(v) => {
                proof {
                    assert(wf_value::<V>(ctx@[kb@])) by {
                        assert(v.encoding() == ctx@[kb@]);
                    }
                    let v2 = stored_value::<V>(ctx@[kb@]);
                    v.lemma_encoding_injective(v2);
                }
                Ok(v)
            },
            None => {
                proof {
                    assert(!wf_value::<V>(ctx@[kb@]));
                }
                Err(Error::StorageFailure)
            },
        },
    }
}

impl<K: KeyEncode, V: UInt> UIntMap<K, V> {
    /// Creates a balance map over the given key and magnitude types.
    pub fn new() -> (r: UIntMap<K, V>) {
        UIntMap { key_marker: PhantomData, value_marker: PhantomData }
    }

    /// Gets the current balance for the given key, defaulting always to 0
    /// when the store holds no entry for it.
    pub fn get(&self, ctx: &Context, key: &K) -> (r: Result<V, Error>)
        ensures
            get_post::<V>(ctx@, key.key_encoding(), r),
    {
        let kb = key.encode_key();
        read_current::<V>(ctx, &kb)
    }

    /// Adds the given value to the current balance for the given key and
    /// writes the new total back, failing without a write when the sum
    /// would pass the width's maximum.
    pub fn add(&self, ctx: &mut Context, key: &K, value: V) -> (r: Result<V, Error>)
        ensures
            add_post::<V>(old(ctx)@, final(ctx)@, key.key_encoding(), value.as_nat(), r),
    {
        let kb = key.encode_key();
        let current: V = match read_current::<V>(ctx, &kb) {
            Ok(v) => v,
            Err(e) => {
                return Err(e);
            },
        };
        match current.add(value) {
            None => Err(Error::ArithmeticOverflow),
            Some(total) => {
                let enc = total.encode();
                ctx.write(&kb, enc);
                Ok(total)
            },
        }
    }

    /// Subtracts the given value from the current balance for the given key
    /// and writes the new total back, failing without a write when the
    /// result would go below zero.
    pub fn safe_sub(&self, ctx: &mut Context, key: &K, value: V) -> (r: Result<V, Error>)
        ensures
            sub_post::<V>(old(ctx)@, final(ctx)@, key.key_encoding(), value.as_nat(), r),
    {
        let kb = key.encode_key();
        let current: V = match read_current::<V>(ctx, &kb) {
            Ok(v) => v,
            Err(e) => {
                return Err(e);
            },
        };
        match current.sub(value) {
            None => Err(Error::InsufficientBalance),
            Some(total) => {
                let enc = total.encode();
                ctx.write(&kb, enc);
                Ok(total)
            },
        }
    }
}

} // verus!
