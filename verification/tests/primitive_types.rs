use hyperlane_cli::primitive_types::{Error, U128, U256, U512};

#[test]
fn u256_from_u128_zero_extends() {
    let x = U128([1, 2]);
    assert_eq!(U256::from(x), U256([1, 2, 0, 0]));
    assert_eq!(U256::from(&x), U256([1, 2, 0, 0]));
}

#[test]
fn u512_from_smaller_zero_extends() {
    assert_eq!(U512::from(U128([7, u64::MAX])), U512([7, u64::MAX, 0, 0, 0, 0, 0, 0]));
    assert_eq!(U512::from(&U256([1, 2, 3, 4])), U512([1, 2, 3, 4, 0, 0, 0, 0]));
}

#[test]
fn u128_try_from_u256_fits() {
    assert_eq!(U128::try_from(U256([5, 6, 0, 0])), Ok(U128([5, 6])));
    assert_eq!(U128::try_from(&U256([u64::MAX, u64::MAX, 0, 0])), Ok(U128([u64::MAX, u64::MAX])));
}

#[test]
fn u128_try_from_u256_overflows() {
    assert_eq!(U128::try_from(U256([5, 6, 1, 0])), Err(Error::Overflow));
    assert_eq!(U128::try_from(&U256([0, 0, 0, 1])), Err(Error::Overflow));
}

#[test]
fn u256_try_from_u512() {
    assert_eq!(U256::try_from(U512([1, 2, 3, 4, 0, 0, 0, 0])), Ok(U256([1, 2, 3, 4])));
    assert_eq!(U256::try_from(U512([1, 2, 3, 4, 0, 0, 0, 9])), Err(Error::Overflow));
    assert_eq!(U128::try_from(&U512([1, 2, 0, 0, 0, 0, 0, 0])), Ok(U128([1, 2])));
    assert_eq!(U128::try_from(U512([1, 2, 3, 0, 0, 0, 0, 0])), Err(Error::Overflow));
}

#[test]
fn widen_then_narrow_round_trip() {
    let x = U256([9, 8, 7, 6]);
    assert_eq!(U256::try_from(U512::from(x)), Ok(x));
    let y = U128([0, u64::MAX]);
    assert_eq!(U128::try_from(U256::from(y)), Ok(y));
}

fn lossy128(v: f64) -> U128 {
    U128::from_f64_bits_lossy(v.to_bits())
}

fn lossy256(v: f64) -> U256 {
    U256::from_f64_bits_lossy(v.to_bits())
}

fn lossy512(v: f64) -> U512 {
    U512::from_f64_bits_lossy(v.to_bits())
}

#[test]
fn lossy_below_one_is_zero() {
    assert_eq!(lossy256(0.0), U256([0, 0, 0, 0]));
    assert_eq!(lossy256(-0.0), U256([0, 0, 0, 0]));
    assert_eq!(lossy256(0.999), U256([0, 0, 0, 0]));
    assert_eq!(lossy256(-5.0), U256([0, 0, 0, 0]));
    assert_eq!(lossy256(f64::NEG_INFINITY), U256([0, 0, 0, 0]));
}

#[test]
fn lossy_nan_is_zero() {
    assert_eq!(lossy256(f64::NAN), U256([0, 0, 0, 0]));
    assert_eq!(lossy128(-f64::NAN), U128([0, 0]));
}

#[test]
fn lossy_truncates_fraction() {
    assert_eq!(lossy256(1.0), U256([1, 0, 0, 0]));
    assert_eq!(lossy256(1.5), U256([1, 0, 0, 0]));
    assert_eq!(lossy256(12345.678), U256([12345, 0, 0, 0]));
    assert_eq!(lossy128(4503599627370495.5), U128([4503599627370495, 0]));
}

#[test]
fn lossy_large_exact_values() {
    // 2^64
    assert_eq!(lossy128(18446744073709551616.0), U128([0, 1]));
    // 1e20 = 0x5_6BC7_5E2D_6310_0000
    assert_eq!(lossy256(1e20), U256([0x6BC7_5E2D_6310_0000, 5, 0, 0]));
    // 2^53 + 2
    assert_eq!(lossy256(9007199254740994.0), U256([9007199254740994, 0, 0, 0]));
    // 2^200
    assert_eq!(lossy256(2f64.powi(200)), U256([0, 0, 0, 1 << 8]));
    // 3 * 2^127 = 2^128 + 2^127, crossing a limb boundary
    assert_eq!(lossy256(3.0 * 2f64.powi(127)), U256([0, 1 << 63, 1, 0]));
    // the largest double below 2^128
    let below = f64::from_bits(2f64.powi(128).to_bits() - 1);
    assert_eq!(lossy128(below), U128([0, 0xFFFF_FFFF_FFFF_F800]));
}

#[test]
fn lossy_saturates() {
    assert_eq!(lossy128(2f64.powi(128)), U128([u64::MAX, u64::MAX]));
    assert_eq!(lossy128(f64::MAX), U128([u64::MAX, u64::MAX]));
    assert_eq!(lossy256(f64::INFINITY), U256([u64::MAX; 4]));
    assert_eq!(lossy512(2f64.powi(512)), U512([u64::MAX; 8]));
    assert_eq!(lossy512(2f64.powi(511)), U512([0, 0, 0, 0, 0, 0, 0, 1 << 63]));
}
