use ethers::signers::{LocalWallet, Signer};
use hyperlane_cli::primitive_types::U256;
use hyperlane_cli::signing_key::private_key_from_key_file;

const KEY: &str = "4c0883a69102937d6231471b5dbb6204fe5129617082792ae468d01a3f362318";

fn key_bytes() -> [u8; 32] {
    let mut b = [0u8; 32];
    for i in 0..32 {
        b[i] = u8::from_str_radix(&KEY[2 * i..2 * i + 2], 16).unwrap();
    }
    b
}

#[test]
fn key_file_with_white_space() {
    assert_eq!(private_key_from_key_file(KEY).ok(), Some(key_bytes()));
    let padded = format!("  \t{KEY}\n\r\n");
    assert_eq!(private_key_from_key_file(&padded).ok(), Some(key_bytes()));
    let unicode = format!("\u{3000}{KEY}\u{2029}");
    assert_eq!(private_key_from_key_file(&unicode).ok(), Some(key_bytes()));
}

#[test]
fn key_gives_the_same_wallet_as_parsing() {
    let key = private_key_from_key_file(&format!("{KEY}\n")).ok().unwrap();
    let ours = LocalWallet::from_bytes(&key).unwrap();
    let theirs = KEY.parse::<LocalWallet>().unwrap();
    assert_eq!(ours.address(), theirs.address());
}

#[test]
fn bad_keys_are_refused() {
    assert!(private_key_from_key_file("").is_err());
    assert!(private_key_from_key_file("zz").is_err());
    assert!(private_key_from_key_file(&"00".repeat(32)).is_err());
    assert!(private_key_from_key_file(&KEY[..62]).is_err());
    assert!(private_key_from_key_file(&format!("{KEY} x")).is_err());
}

#[test]
fn chain_id_as_u64() {
    assert_eq!(U256([420, 0, 0, 0]).checked_as_u64(), Some(420));
    assert_eq!(U256([u64::MAX, 0, 0, 0]).checked_as_u64(), Some(u64::MAX));
    assert_eq!(U256([0, 1, 0, 0]).checked_as_u64(), None);
    assert_eq!(U256([5, 0, 0, 1]).checked_as_u64(), None);
}
