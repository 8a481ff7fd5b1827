use state_objects::Context;
use state_objects::Error;
use state_objects::KeyEncode;
use state_objects::UInt;
use state_objects::UIntMap;

#[test]
fn absent_key_reads_zero_u64() {
    let ctx = Context::new();
    let map = UIntMap::<u64, u64>::new();
    assert_eq!(map.get(&ctx, &7), Ok(0));
    assert_eq!(map.get(&ctx, &0), Ok(0));
    assert_eq!(map.get(&ctx, &u64::MAX), Ok(0));
}

#[test]
fn absent_key_reads_zero_u128() {
    let ctx = Context::new();
    let map = UIntMap::<u64, u128>::new();
    assert_eq!(map.get(&ctx, &7), Ok(0));
}

#[test]
fn credits_accumulate_u64() {
    let mut ctx = Context::new();
    let map = UIntMap::<u64, u64>::new();
    assert_eq!(map.add(&mut ctx, &1, 3), Ok(3));
    assert_eq!(map.add(&mut ctx, &1, 4), Ok(7));
    assert_eq!(map.get(&ctx, &1), Ok(7));
}

#[test]
fn credits_accumulate_u128() {
    let mut ctx = Context::new();
    let map = UIntMap::<u64, u128>::new();
    assert_eq!(map.add(&mut ctx, &1, 3), Ok(3));
    assert_eq!(map.add(&mut ctx, &1, 4), Ok(7));
    assert_eq!(map.get(&ctx, &1), Ok(7));
}

#[test]
fn overflow_rejected_u64() {
    let mut ctx = Context::new();
    let map = UIntMap::<u64, u64>::new();
    assert_eq!(map.add(&mut ctx, &9, u64::MAX), Ok(u64::MAX));
    assert_eq!(map.add(&mut ctx, &9, 1), Err(Error::ArithmeticOverflow));
    assert_eq!(map.get(&ctx, &9), Ok(u64::MAX));
}

#[test]
fn overflow_rejected_u128() {
    let mut ctx = Context::new();
    let map = UIntMap::<u64, u128>::new();
    assert_eq!(map.add(&mut ctx, &9, u128::MAX), Ok(u128::MAX));
    assert_eq!(map.add(&mut ctx, &9, 1), Err(Error::ArithmeticOverflow));
    assert_eq!(map.get(&ctx, &9), Ok(u128::MAX));
}

#[test]
fn debit_floor_u64() {
    let mut ctx = Context::new();
    let map = UIntMap::<u64, u64>::new();
    assert_eq!(map.add(&mut ctx, &2, 10), Ok(10));
    assert_eq!(map.safe_sub(&mut ctx, &2, 11), Err(Error::InsufficientBalance));
    assert_eq!(map.get(&ctx, &2), Ok(10));
}

#[test]
fn debit_floor_u128() {
    let mut ctx = Context::new();
    let map = UIntMap::<u64, u128>::new();
    assert_eq!(map.add(&mut ctx, &2, 10), Ok(10));
    assert_eq!(map.safe_sub(&mut ctx, &2, 11), Err(Error::InsufficientBalance));
    assert_eq!(map.get(&ctx, &2), Ok(10));
}

#[test]
fn debit_from_absent_key_fails() {
    let mut ctx = Context::new();
    let map = UIntMap::<u64, u64>::new();
    assert_eq!(map.safe_sub(&mut ctx, &3, 1), Err(Error::InsufficientBalance));
    assert_eq!(map.get(&ctx, &3), Ok(0));
}

#[test]
fn round_trip() {
    let mut ctx = Context::new();
    let map = UIntMap::<u64, u64>::new();
    assert_eq!(map.add(&mut ctx, &4, 100), Ok(100));
    assert_eq!(map.safe_sub(&mut ctx, &4, 40), Ok(60));
    assert_eq!(map.get(&ctx, &4), Ok(60));
}

#[test]
fn zero_ops_preserve_balance() {
    let mut ctx = Context::new();
    let map = UIntMap::<u64, u64>::new();
    assert_eq!(map.add(&mut ctx, &5, 0), Ok(0));
    assert_eq!(map.get(&ctx, &5), Ok(0));
    assert_eq!(map.add(&mut ctx, &5, 42), Ok(42));
    assert_eq!(map.add(&mut ctx, &5, 0), Ok(42));
    assert_eq!(map.get(&ctx, &5), Ok(42));
    assert_eq!(map.safe_sub(&mut ctx, &5, 0), Ok(42));
    assert_eq!(map.get(&ctx, &5), Ok(42));
}

#[test]
fn distinct_keys_are_independent() {
    let mut ctx = Context::new();
    let map = UIntMap::<u64, u64>::new();
    assert_eq!(map.add(&mut ctx, &10, 1), Ok(1));
    assert_eq!(map.add(&mut ctx, &11, 2), Ok(2));
    assert_eq!(map.get(&ctx, &10), Ok(1));
    assert_eq!(map.get(&ctx, &11), Ok(2));
    assert_eq!(map.safe_sub(&mut ctx, &10, 1), Ok(0));
    assert_eq!(map.get(&ctx, &10), Ok(0));
    assert_eq!(map.get(&ctx, &11), Ok(2));
}

#[test]
fn u128_keys_work() {
    let mut ctx = Context::new();
    let map = UIntMap::<u128, u64>::new();
    assert_eq!(map.add(&mut ctx, &12, 8), Ok(8));
    assert_eq!(map.get(&ctx, &12), Ok(8));
    assert_eq!(map.get(&ctx, &13), Ok(0));
}

#[test]
fn corrupt_entry_is_a_storage_failure() {
    let mut ctx = Context::new();
    let map = UIntMap::<u64, u64>::new();
    let kb = 6u64.encode_key();
    ctx.write(&kb, vec![1, 2, 3]);
    assert_eq!(map.get(&ctx, &6), Err(Error::StorageFailure));
    assert_eq!(map.add(&mut ctx, &6, 1), Err(Error::StorageFailure));
    assert_eq!(map.safe_sub(&mut ctx, &6, 1), Err(Error::StorageFailure));
    assert_eq!(ctx.read(&kb), Some(vec![1, 2, 3]));
}

#[test]
fn balances_are_stored_little_endian() {
    let mut ctx = Context::new();
    let map = UIntMap::<u64, u64>::new();
    assert_eq!(map.add(&mut ctx, &1, 0x0201), Ok(0x0201));
    let kb = 1u64.encode_key();
    assert_eq!(ctx.read(&kb), Some(vec![1, 2, 0, 0, 0, 0, 0, 0]));
}

#[test]
fn failed_credit_writes_nothing() {
    let mut ctx = Context::new();
    let map = UIntMap::<u64, u64>::new();
    assert_eq!(map.add(&mut ctx, &8, u64::MAX - 1), Ok(u64::MAX - 1));
    assert_eq!(map.add(&mut ctx, &8, 2), Err(Error::ArithmeticOverflow));
    assert_eq!(map.get(&ctx, &8), Ok(u64::MAX - 1));
    assert_eq!(ctx.read(&8u64.encode_key()), Some((u64::MAX - 1).to_le_bytes().to_vec()));
}
