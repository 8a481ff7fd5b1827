use vstd::prelude::*;

verus! {

/// The failure kinds of a balance-map operation.
///
/// Every failing operation leaves the underlying store unchanged; the error
/// only reports why no new balance was written.
#[derive(Clone, Copy, Debug, PartialEq, Eq, Structural)]
pub enum Error {
    /// The underlying store could not complete a read or write, or the bytes
    /// found under the key do not decode to a magnitude.
    StorageFailure,
    /// A credit would exceed the magnitude's maximum representable value.
    ArithmeticOverflow,
    /// A guarded debit would drive the balance below zero.
    InsufficientBalance,
}

} // verus!
