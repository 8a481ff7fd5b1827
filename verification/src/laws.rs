use crate::error::Error;
use crate::uint::UInt;
use crate::uint_map::add_post;
use crate::uint_map::balance;
use crate::uint_map::get_post;
use crate::uint_map::readable;
use crate::uint_map::stored_value;
use crate::uint_map::sub_post;
use crate::uint_map::wf_value;
use vstd::prelude::*;

verus! {

/// After a magnitude's encoding is written under `kb`, the entry is readable
/// and the balance is exactly that magnitude's value.
pub proof fn lemma_write_sets_balance<V: UInt>(m: Map<Seq<u8>, Seq<u8>>, kb: Seq<u8>, v: V)
    ensures
        readable::<V>(m.insert(kb, v.encoding()), kb),
        balance::<V>(m.insert(kb, v.encoding()), kb) == v.as_nat(),
{
    let m2 = m.insert(kb, v.encoding());
    assert(wf_value::<V>(m2[kb])) by {
        assert(v.encoding() == m2[kb]);
    }
    let v2 = stored_value::<V>(m2[kb]);
    v2.lemma_encoding_injective(v);
}

/// Absence is zero: a key with no entry in the store always reads as the
/// balance zero.
pub proof fn lemma_absent_reads_zero<V: UInt>(
    store: Map<Seq<u8>, Seq<u8>>,
    kb: Seq<u8>,
    r: Result<V, Error>,
)
    requires
        !store.contains_key(kb),
        get_post::<V>(store, kb, r),
    ensures
        r matches Ok(v) && v.as_nat() == 0,
{
}

/// Credit correctness: on a key never written, two credits whose sum fits
/// the width both succeed, and a read afterwards returns exactly their sum.
pub proof fn lemma_credits_accumulate<V: UInt>(
    m0: Map<Seq<u8>, Seq<u8>>,
    m1: Map<Seq<u8>, Seq<u8>>,
    m2: Map<Seq<u8>, Seq<u8>>,
    kb: Seq<u8>,
    v1: V,
    v2: V,
    r1: Result<V, Error>,
    r2: Result<V, Error>,
)
    requires
        !m0.contains_key(kb),
        v1.as_nat() + v2.as_nat() <= V::max_spec(),
        add_post::<V>(m0, m1, kb, v1.as_nat(), r1),
        add_post::<V>(m1, m2, kb, v2.as_nat(), r2),
    ensures
        r1 matches Ok(t) && t.as_nat() == v1.as_nat(),
        r2 matches Ok(t) && t.as_nat() == v1.as_nat() + v2.as_nat(),
        readable::<V>(m2, kb),
        balance::<V>(m2, kb) == v1.as_nat() + v2.as_nat(),
        forall|g: Result<V, Error>| #[trigger]
            get_post::<V>(m2, kb, g) ==> (g matches Ok(w) && w.as_nat() == v1.as_nat()
                + v2.as_nat()),
{
    let t1 = r1->Ok_0;
    lemma_write_sets_balance::<V>(m0, kb, t1);
    let t2 = r2->Ok_0;
    lemma_write_sets_balance::<V>(m1, kb, t2);
}

/// Overflow rejection: after a credit fills a fresh entry to the width's
/// maximum, any further nonzero credit fails with `ArithmeticOverflow`, and
/// the balance still reads as the maximum, unchanged.
pub proof fn lemma_overflow_rejected<V: UInt>(
    m0: Map<Seq<u8>, Seq<u8>>,
    m1: Map<Seq<u8>, Seq<u8>>,
    m2: Map<Seq<u8>, Seq<u8>>,
    kb: Seq<u8>,
    vmax: V,
    v: V,
    r1: Result<V, Error>,
    r2: Result<V, Error>,
)
    requires
        !m0.contains_key(kb),
        vmax.as_nat() == V::max_spec(),
        v.as_nat() > 0,
        add_post::<V>(m0, m1, kb, vmax.as_nat(), r1),
        add_post::<V>(m1, m2, kb, v.as_nat(), r2),
    ensures
        r1 matches Ok(t) && t.as_nat() == V::max_spec(),
        r2 == Err::<V, Error>(Error::ArithmeticOverflow),
        m2 == m1,
        balance::<V>(m2, kb) == V::max_spec(),
        forall|g: Result<V, Error>| #[trigger]
            get_post::<V>(m2, kb, g) ==> (g matches Ok(w) && w.as_nat() == V::max_spec()),
{
    let t1 = r1->Ok_0;
    lemma_write_sets_balance::<V>(m0, kb, t1);
}

/// Debit floor: a debit of more than the current balance fails with
/// `InsufficientBalance`, and the balance still reads as it did before.
pub proof fn lemma_debit_floor<V: UInt>(
    m0: Map<Seq<u8>, Seq<u8>>,
    m1: Map<Seq<u8>, Seq<u8>>,
    kb: Seq<u8>,
    v: V,
    r: Result<V, Error>,
)
    requires
        readable::<V>(m0, kb),
        v.as_nat() > balance::<V>(m0, kb),
        sub_post::<V>(m0, m1, kb, v.as_nat(), r),
    ensures
        r == Err::<V, Error>(Error::InsufficientBalance),
        m1 == m0,
        forall|g: Result<V, Error>| #[trigger]
            get_post::<V>(m1, kb, g) ==> (g matches Ok(w) && w.as_nat() == balance::<V>(m0, kb)),
{
}

/// No partial writes on a failed credit: every entry of the store, the
/// touched key's included, is exactly as it was before the call.
pub proof fn lemma_failed_add_writes_nothing<V: UInt>(
    m0: Map<Seq<u8>, Seq<u8>>,
    m1: Map<Seq<u8>, Seq<u8>>,
    kb: Seq<u8>,
    amount: nat,
    r: Result<V, Error>,
)
    requires
        add_post::<V>(m0, m1, kb, amount, r),
        r is Err,
    ensures
        m1 == m0,
        forall|g: Result<V, Error>| #[trigger]
            get_post::<V>(m1, kb, g) == get_post::<V>(m0, kb, g),
{
}

/// No partial writes on a failed debit: every entry of the store, the
/// touched key's included, is exactly as it was before the call.
pub proof fn lemma_failed_sub_writes_nothing<V: UInt>(
    m0: Map<Seq<u8>, Seq<u8>>,
    m1: Map<Seq<u8>, Seq<u8>>,
    kb: Seq<u8>,
    amount: nat,
    r: Result<V, Error>,
)
    requires
        sub_post::<V>(m0, m1, kb, amount, r),
        r is Err,
    ensures
        m1 == m0,
        forall|g: Result<V, Error>| #[trigger]
            get_post::<V>(m1, kb, g) == get_post::<V>(m0, kb, g),
{
}

/// Round trip: on a key never written, a credit followed by a debit of no
/// more than the credited value both succeed, and a read afterwards returns
/// exactly their difference.
pub proof fn lemma_credit_then_debit<V: UInt>(
    m0: Map<Seq<u8>, Seq<u8>>,
    m1: Map<Seq<u8>, Seq<u8>>,
    m2: Map<Seq<u8>, Seq<u8>>,
    kb: Seq<u8>,
    v1: V,
    v2: V,
    r1: Result<V, Error>,
    r2: Result<V, Error>,
)
    requires
        !m0.contains_key(kb),
        v1.as_nat() <= V::max_spec(),
        v2.as_nat() <= v1.as_nat(),
        add_post::<V>(m0, m1, kb, v1.as_nat(), r1),
        sub_post::<V>(m1, m2, kb, v2.as_nat(), r2),
    ensures
        r1 matches Ok(t) && t.as_nat() == v1.as_nat(),
        r2 matches Ok(t) && t.as_nat() == v1.as_nat() - v2.as_nat(),
        readable::<V>(m2, kb),
        balance::<V>(m2, kb) == v1.as_nat() - v2.as_nat(),
        forall|g: Result<V, Error>| #[trigger]
            get_post::<V>(m2, kb, g) ==> (g matches Ok(w) && w.as_nat() == v1.as_nat()
                - v2.as_nat()),
{
    let t1 = r1->Ok_0;
    lemma_write_sets_balance::<V>(m0, kb, t1);
    let t2 = r2->Ok_0;
    lemma_write_sets_balance::<V>(m1, kb, t2);
}

/// Idempotent zero credit: adding zero succeeds wherever the entry is
/// readable, and the balance a read returns is unchanged.
pub proof fn lemma_zero_add_preserves_balance<V: UInt>(
    m0: Map<Seq<u8>, Seq<u8>>,
    m1: Map<Seq<u8>, Seq<u8>>,
    kb: Seq<u8>,
    r: Result<V, Error>,
)
    requires
        readable::<V>(m0, kb),
        add_post::<V>(m0, m1, kb, 0, r),
    ensures
        r matches Ok(t) && t.as_nat() == balance::<V>(m0, kb),
        readable::<V>(m1, kb),
        balance::<V>(m1, kb) == balance::<V>(m0, kb),
        forall|g: Result<V, Error>| #[trigger]
            get_post::<V>(m1, kb, g) ==> (g matches Ok(w) && w.as_nat() == balance::<V>(m0, kb)),
{
    if m0.contains_key(kb) {
        stored_value::<V>(m0[kb]).lemma_as_nat_bound();
    }
    let t = r->Ok_0;
    lemma_write_sets_balance::<V>(m0, kb, t);
}

/// Idempotent zero debit: subtracting zero succeeds wherever the entry is
/// readable, and the balance a read returns is unchanged.
pub proof fn lemma_zero_sub_preserves_balance<V: UInt>(
    m0: Map<Seq<u8>, Seq<u8>>,
    m1: Map<Seq<u8>, Seq<u8>>,
    kb: Seq<u8>,
    r: Result<V, Error>,
)
    requires
        readable::<V>(m0, kb),
        sub_post::<V>(m0, m1, kb, 0, r),
    ensures
        r matches Ok(t) && t.as_nat() == balance::<V>(m0, kb),
        readable::<V>(m1, kb),
        balance::<V>(m1, kb) == balance::<V>(m0, kb),
        forall|g: Result<V, Error>| #[trigger]
            get_post::<V>(m1, kb, g) ==> (g matches Ok(w) && w.as_nat() == balance::<V>(m0, kb)),
{
    let t = r->Ok_0;
    lemma_write_sets_balance::<V>(m0, kb, t);
}

} // verus!
