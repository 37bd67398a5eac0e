use hyperlane_cli::hashes::{H128, H160, H256, H512};
use hyperlane_cli::hex::HexDigitError;
use std::str::FromStr;

fn h160_sample() -> H160 {
    let mut b = [0u8; 20];
    for (i, x) in b.iter_mut().enumerate() {
        *x = i as u8 + 1;
    }
    H160(b)
}

#[test]
fn h256_from_h160_pads_in_front() {
    let small = h160_sample();
    let wide = H256::from(small);
    assert_eq!(&wide.0[..12], &[0u8; 12]);
    assert_eq!(&wide.0[12..], &small.0[..]);
}

#[test]
fn h160_from_h256_keeps_last_bytes() {
    let mut b = [0u8; 32];
    for (i, x) in b.iter_mut().enumerate() {
        *x = i as u8;
    }
    let small = H160::from(H256(b));
    assert_eq!(&small.0[..], &b[12..]);
}

#[test]
fn h512_conversions() {
    let h = H256([7u8; 32]);
    let w = H512::from(h);
    assert_eq!(&w.0[..32], &[0u8; 32]);
    assert_eq!(H256::from(w), h);
    let a = h160_sample();
    let w2 = H512::from(a);
    assert_eq!(&w2.0[..44], &[0u8; 44]);
    assert_eq!(H160::from(w2), a);
}

#[test]
fn hash_round_trips() {
    let a = h160_sample();
    assert_eq!(H160::from(H256::from(a)), a);
    let full = H256([0xAB; 32]);
    assert_ne!(H256::from(H160::from(full)), full);
}

#[test]
fn from_str_with_and_without_prefix() {
    let text = "00000000000000000000000036FdA966CfffF8a9Cdc814f546db0e6378bFef35";
    let a = H256::from_str(text).unwrap();
    let b = H256::from_str(&format!("0x{text}")).unwrap();
    assert_eq!(a, b);
    assert_eq!(&a.0[..12], &[0u8; 12]);
    assert_eq!(a.0[12], 0x36);
    assert_eq!(a.0[31], 0x35);
}

#[test]
fn from_str_agrees_with_fixed_hash() {
    let texts = [
        "0x00000000000000000000000036FdA966CfffF8a9Cdc814f546db0e6378bFef35",
        "ffffffffffffffffffffffffffffffffffffffffffffffffffffffffffffffff",
        "0x0123456789abcdef0123456789ABCDEF0123456789abcdef0123456789abcdef",
    ];
    for t in texts {
        let ours = H256::from_str(t).unwrap();
        let theirs = ethers_core::types::H256::from_str(t).unwrap();
        assert_eq!(ours.0, theirs.0);
    }
}

#[test]
fn from_str_skips_white_space() {
    let a = H128::from_str("00112233 44556677\n8899aabbccddeeff").unwrap();
    assert_eq!(a.0, [0x00, 0x11, 0x22, 0x33, 0x44, 0x55, 0x66, 0x77, 0x88, 0x99, 0xaa, 0xbb, 0xcc, 0xdd, 0xee, 0xff]);
}

#[test]
fn from_str_rejects_wrong_lengths() {
    assert_eq!(H256::from_str(""), Err(HexDigitError::InvalidHexLength));
    assert_eq!(H256::from_str("0x"), Err(HexDigitError::InvalidHexLength));
    assert_eq!(H160::from_str("0x1234"), Err(HexDigitError::InvalidHexLength));
    // one digit too many, and one byte too many
    let long = "00".repeat(20) + "0";
    assert_eq!(H160::from_str(&long), Err(HexDigitError::InvalidHexLength));
    let longer = "00".repeat(21);
    assert_eq!(H160::from_str(&longer), Err(HexDigitError::InvalidHexLength));
}

#[test]
fn from_str_rejects_bad_characters() {
    let bad = "0x".to_string() + &"0".repeat(10) + "zz" + &"0".repeat(52);
    assert_eq!(H256::from_str(&bad), Err(HexDigitError::InvalidHexCharacter('z', 10)));
    // only one "0x" is dropped; a capital X is not a digit
    let upper = "0X".to_string() + &"0".repeat(62);
    assert_eq!(H256::from_str(&upper), Err(HexDigitError::InvalidHexCharacter('X', 1)));
    // a bad character after the last byte counts as a length error
    let trailing = "00".repeat(16) + "g";
    assert_eq!(H128::from_str(&trailing), Err(HexDigitError::InvalidHexLength));
}

#[test]
fn h512_from_str() {
    let t = "ab".repeat(64);
    assert_eq!(H512::from_str(&t).unwrap(), H512([0xab; 64]));
}

#[test]
fn from_str_errors_agree_with_fixed_hash() {
    let texts = [
        "",
        "0x12",
        "0x00 zz",
        "0X00",
        "00112233445566778899aabbccddeef",
        "00112233445566778899aabbccddeeff00",
        "00112233445566778899aabbccddeeffg",
        "0011 2233\t4455\r6677\n8899aabbccddeeff",
        "001122334455667é8899aabbccddeeff",
    ];
    for t in texts {
        let ours = H128::from_str(t);
        let theirs = ethers_core::types::H128::from_str(t);
        match (ours, theirs) {
            (Ok(a), Ok(b)) => assert_eq!(a.0, b.0),
            (Err(HexDigitError::InvalidHexLength), Err(rustc_hex::FromHexError::InvalidHexLength)) => {}
            (Err(HexDigitError::InvalidHexCharacter(c, i)), Err(rustc_hex::FromHexError::InvalidHexCharacter(d, j))) => {
                assert_eq!((c, i), (d, j))
            }
            (a, b) => panic!("{t:?}: {a:?} against {b:?}"),
        }
    }
}
