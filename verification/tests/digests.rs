use bb_imager::digest::{decode_sha256_hex, digest_eq, sha256};
use sha2::{Digest, Sha256};

// NIST test vector: SHA-256 of "abc"
const ABC_SHA256: &str = "ba7816bf8f01cfea414140de5dae2223b00361a396177a9cb410ff61f20015ad";
// SHA-256 of the empty input
const EMPTY_SHA256: &str = "e3b0c44298fc1c149afbf4c8996fb92427ae41e4649b934ca495991b7852b855";

#[test]
fn sha256_known_vectors() {
    let abc = sha256(b"abc");
    let expected = decode_sha256_hex(ABC_SHA256.as_bytes()).unwrap();
    assert_eq!(abc, expected);

    let empty = sha256(b"");
    let expected_empty = decode_sha256_hex(EMPTY_SHA256.as_bytes()).unwrap();
    assert_eq!(empty, expected_empty);

    // the digest is not the input handed back
    assert_ne!(&abc[..], b"abc".as_slice());
    assert_ne!(abc, empty);
}

#[test]
fn sha256_agrees_with_sha2_crate() {
    let data = b"the quick brown fox jumps over the lazy dog";
    let direct: [u8; 32] = Sha256::digest(data).into();
    assert_eq!(sha256(data), direct);
}

#[test]
fn decode_hex_valid() {
    let d = decode_sha256_hex(ABC_SHA256.as_bytes()).unwrap();
    assert_eq!(d[0], 0xba);
    assert_eq!(d[1], 0x78);
    assert_eq!(d[31], 0xad);
    // agrees with const-hex called directly
    let direct: [u8; 32] = const_hex::decode_to_array(ABC_SHA256).unwrap();
    assert_eq!(d, direct);
}

#[test]
fn decode_hex_prefix_and_case() {
    let plain = decode_sha256_hex(ABC_SHA256.as_bytes()).unwrap();
    let prefixed = decode_sha256_hex(format!("0x{ABC_SHA256}").as_bytes()).unwrap();
    let upper = decode_sha256_hex(ABC_SHA256.to_uppercase().as_bytes()).unwrap();
    let big_x = decode_sha256_hex(format!("0X{ABC_SHA256}").as_bytes()).unwrap();
    assert_eq!(plain, prefixed);
    assert_eq!(plain, upper);
    assert_eq!(plain, big_x);
}

#[test]
fn decode_hex_rejects_bad_input() {
    // too short
    assert!(decode_sha256_hex(&ABC_SHA256.as_bytes()[..62]).is_none());
    // odd length
    assert!(decode_sha256_hex(&ABC_SHA256.as_bytes()[..63]).is_none());
    // too long
    assert!(decode_sha256_hex(format!("{ABC_SHA256}00").as_bytes()).is_none());
    // invalid character
    let mut bad = ABC_SHA256.to_string().into_bytes();
    bad[10] = b'g';
    assert!(decode_sha256_hex(&bad).is_none());
    // empty
    assert!(decode_sha256_hex(b"").is_none());
    // a prefix alone does not make up for missing digits
    assert!(decode_sha256_hex(format!("0x{}", &ABC_SHA256[..62]).as_bytes()).is_none());
}

#[test]
fn digest_eq_compares_bytes() {
    let a = sha256(b"left");
    let b = sha256(b"right");
    assert!(digest_eq(&a, &a));
    assert!(!digest_eq(&a, &b));
    let mut c = a;
    c[31] ^= 1;
    assert!(!digest_eq(&a, &c));
}
