//! Content digests: SHA-256 over byte streams, digest comparison, and
//! parsing of the hexadecimal digest strings given on a command line.

use vstd::prelude::*;
use sha2::Digest;

verus! {

/// The SHA-256 digest of a byte sequence. The algorithm itself is not
/// restated here; all that the library relies on is that the digest is a
/// function of the bytes alone and is 32 bytes long.
pub uninterp spec fn sha256_of(data: Seq<u8>) -> Seq<u8>;

/// Relies on `sha2::Sha256` through the one-shot `Digest::digest` call:
/// the digest depends on the input bytes alone and is 32 bytes long.
#[verifier::external_body]
pub fn sha256(data: &[u8]) -> (r: [u8; 32])
    ensures
        r@ == sha256_of(data@),
{
    let d = sha2::Sha256::digest(data);
    let mut out = [0u8; 32];
    out.copy_from_slice(&d);
    out
}

/// The mathematical view of an optional digest value.
pub open spec fn digest_view(d: Option<[u8; 32]>) -> Option<Seq<u8>> {
    match d {
        Some(a) => Some(a@),
        None => None,
    }
}

/// Compare two digests byte for byte.
pub fn digest_eq(a: &[u8; 32], b: &[u8; 32]) -> (r: bool)
    ensures
        r == (a@ == b@),
{
    let mut i: usize = 0;
    while i < 32
        invariant
            0 <= i <= 32,
            forall|k: int| 0 <= k < i ==> a@[k] == b@[k],
        decreases 32 - i,
    {
        if a[i] != b[i] {
            assert(a@[i as int] != b@[i as int]);
            return false;
        }
        i = i + 1;
    }
    proof {
        assert(a@ =~= b@);
    }
    true
}

/// A hexadecimal digit in either case (`0`..`9`, `a`..`f`, `A`..`F`).
pub open spec fn is_hex_digit(b: u8) -> bool {
    (48 <= b <= 57) || (97 <= b <= 102) || (65 <= b <= 70)
}

/// The value of one hexadecimal digit.
pub open spec fn hex_digit_value(b: u8) -> u8 {
    if 48 <= b <= 57 {
        (b - 48) as u8
    } else if 97 <= b <= 102 {
        (b - 97 + 10) as u8
    } else {
        (b - 65 + 10) as u8
    }
}

/// A digest string may carry a `0x` or `0X` prefix, which is ignored.
pub open spec fn strip_hex_prefix(s: Seq<u8>) -> Seq<u8> {
    if s.len() >= 2 && s[0] == 48 && (s[1] == 120 || s[1] == 88) {
        s.skip(2)
    } else {
        s
    }
}

/// A well-formed SHA-256 digest string: exactly 64 hexadecimal digits
/// after the optional prefix.
pub open spec fn valid_hex_digest64(s: Seq<u8>) -> bool {
    &&& strip_hex_prefix(s).len() == 64
    &&& forall|i: int| 0 <= i < 64 ==> is_hex_digit(#[trigger] strip_hex_prefix(s)[i])
}

/// The bytes denoted by a sequence of hexadecimal digit pairs, high
/// digit first.
pub open spec fn hex_decoded(s: Seq<u8>) -> Seq<u8> {
    Seq::new(s.len() / 2, |i: int| (hex_digit_value(s[2 * i]) * 16 + hex_digit_value(s[2 * i + 1])) as u8)
}

/// Relies on `const_hex::decode_to_array`: it succeeds exactly on an
/// even-length input that holds 64 hexadecimal digits (either case) after
/// an optional `0x`/`0X` prefix, and decodes each digit pair to one byte,
/// high digit first.
#[verifier::external_body]
pub fn decode_sha256_hex(s: &[u8]) -> (r: Option<[u8; 32]>)
    ensures
        r is Some <==> valid_hex_digest64(s@),
        r matches Some(d) ==> d@ == hex_decoded(strip_hex_prefix(s@)),
{
    const_hex::decode_to_array::<_, 32>(s).ok()
}

} // verus!
