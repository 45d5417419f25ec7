use amulet::num::{FixedU256, U256, U512};

fn from_ratio(numer: u128, denom: u128) -> FixedU256 {
    FixedU256::from_u128(numer)
        .checked_div(FixedU256::from_u128(denom))
        .unwrap()
}

#[test]
fn fixed256_checked_add() {
    let zero = FixedU256::from_u128(0);
    let one = FixedU256::from_u128(1);
    let u128_max = FixedU256::from_u128(u128::MAX);
    let half = from_ratio(1, 2);
    let quarter = from_ratio(1, 4);
    let three_quarters = from_ratio(3, 4);

    assert_eq!(half.checked_add(half).unwrap(), one);
    assert_eq!(three_quarters.checked_add(quarter).unwrap(), one);
    assert_eq!(half.checked_add(quarter).unwrap(), three_quarters);
    assert_eq!(zero.checked_add(zero).unwrap(), zero);
    assert_eq!(zero.checked_add(one).unwrap(), one);

    assert!(u128_max.checked_add(u128_max).is_none());
}

#[test]
fn fixed256_checked_sub() {
    let zero = FixedU256::from_u128(0);
    let one = FixedU256::from_u128(1);
    let half = from_ratio(1, 2);
    let quarter = from_ratio(1, 4);
    let three_quarters = from_ratio(3, 4);

    assert_eq!(half.checked_sub(half).unwrap(), zero);
    assert_eq!(one.checked_sub(half).unwrap(), half);
    assert_eq!(three_quarters.checked_sub(half).unwrap(), quarter);
    assert_eq!(half.checked_sub(quarter).unwrap(), quarter);

    assert!(half.checked_sub(three_quarters).is_none());
}

#[test]
fn fixed256_checked_mul() {
    let zero = FixedU256::from_u128(0);
    let one = FixedU256::from_u128(1);
    let u128_max = FixedU256::from_u128(u128::MAX);
    let half = from_ratio(1, 2);
    let quarter = from_ratio(1, 4);

    assert_eq!(half.checked_mul(half).unwrap(), quarter);
    assert_eq!(one.checked_mul(half).unwrap(), half);
    assert_eq!(one.checked_mul(zero).unwrap(), zero);

    assert!(u128_max.checked_mul(u128_max).is_none());
}

#[test]
fn fixed256_checked_div() {
    let zero = FixedU256::from_u128(0);
    let one = FixedU256::from_u128(1);
    let two = FixedU256::from_u128(2);
    let u128_max = FixedU256::from_u128(u128::MAX);
    let half = from_ratio(1, 2);

    assert_eq!(one.checked_div(half).unwrap(), two);
    assert_eq!(one.checked_div(two).unwrap(), half);
    assert_eq!(u128_max.checked_div(one).unwrap(), u128_max);

    assert!(u128_max.checked_div(zero).is_none());
}

fn u256_one() -> U256 {
    U256 { words: [1, 0, 0, 0] }
}

fn u256_max() -> U256 {
    U256 { words: [u64::MAX; 4] }
}

#[test]
fn u512_from_u256() {
    assert_eq!(U512::from_u256(U256::zero()).words, [0u64; 8]);
    assert_eq!(U512::from_u256(u256_one()).words, [1, 0, 0, 0, 0, 0, 0, 0]);
    assert_eq!(
        U512::from_u256(u256_max()).words,
        [u64::MAX, u64::MAX, u64::MAX, u64::MAX, 0, 0, 0, 0]
    );
}

#[test]
fn u256_try_from_u512() {
    assert_eq!(U256::try_from_u512(U512 { words: [0u64; 8] }).unwrap().words, U256::zero().words);
    assert_eq!(U256::try_from_u512(U512 { words: [1, 0, 0, 0, 0, 0, 0, 0] }).unwrap().words, u256_one().words);
    assert_eq!(U256::try_from_u512(U512::from_u256(u256_max())).unwrap().words, u256_max().words);
    // U256::MAX + 1
    assert!(U256::try_from_u512(U512 { words: [0, 0, 0, 0, 1, 0, 0, 0] }).is_err());
    assert!(U256::try_from_u512(U512 { words: [u64::MAX; 8] }).is_err());
}
