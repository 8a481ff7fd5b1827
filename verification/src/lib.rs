//! A checked unsigned-integer accounting map.
//!
//! The crate keeps non-negative balances, one per key, in a transactional
//! key-value store.  Credits and guarded debits go through checked
//! arithmetic, so a balance can never silently wrap around or go negative,
//! and a failed operation never leaves a partial write behind.

mod context;
mod error;
mod key;
mod laws;
mod uint;
mod uint_map;

pub use context::Context;
pub use error::Error;
pub use key::KeyEncode;
pub use laws::lemma_absent_reads_zero;
pub use laws::lemma_credit_then_debit;
pub use laws::lemma_credits_accumulate;
pub use laws::lemma_debit_floor;
pub use laws::lemma_failed_add_writes_nothing;
pub use laws::lemma_failed_sub_writes_nothing;
pub use laws::lemma_overflow_rejected;
pub use laws::lemma_write_sets_balance;
pub use laws::lemma_zero_add_preserves_balance;
pub use laws::lemma_zero_sub_preserves_balance;
pub use uint::UInt;
pub use uint_map::add_post;
pub use uint_map::balance;
pub use uint_map::get_post;
pub use uint_map::readable;
pub use uint_map::stored_value;
pub use uint_map::sub_post;
pub use uint_map::wf_value;
pub use uint_map::UIntMap;
