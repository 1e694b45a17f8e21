//! Content digests, checksum text and content sniffing.
use vstd::prelude::*;

verus! {

/// The 32-byte SHA-256 digest of `data`.
pub uninterp spec fn sha256_of(data: Seq<u8>) -> Seq<u8>;

/// The MIME type that content sniffing finds for `data`, if any.
pub uninterp spec fn sniffed_mime(data: Seq<u8>) -> Option<Seq<char>>;

/// The value of one hexadecimal digit, either case.
pub open spec fn hex_digit(c: u8) -> Option<int> {
    if 0x30 <= c <= 0x39 {
        Some(c - 0x30)
    } else if 0x41 <= c <= 0x46 {
        Some(c - 0x41 + 10)
    } else if 0x61 <= c <= 0x66 {
        Some(c - 0x61 + 10)
    } else {
        None
    }
}

/// `text` is the hexadecimal form of a 32-byte digest.
pub open spec fn is_hex_digest(text: Seq<u8>) -> bool {
    text.len() == 64 && forall|i: int| 0 <= i < 64 ==> (#[trigger] hex_digit(text[i])) is Some
}

/// Byte `i` of the digest that `text` spells.
pub open spec fn hex_byte(text: Seq<u8>, i: int) -> int {
    hex_digit(text[2 * i])->0 * 16 + hex_digit(text[2 * i + 1])->0
}

#[verifier::external_type_specification]
#[verifier::external_body]
pub struct ExFromHexError(hex::FromHexError);

/// Relies on `sha2::Sha256::digest`: the SHA-256 digest of the bytes.
#[verifier::external_body]
pub(crate) fn sha256(data: &Vec<u8>) -> (r: [u8; 32])
    ensures
        r@ == sha256_of(data@),
{
    <sha2::Sha256 as sha2::Digest>::digest(data).into()
}

/// Relies on `infer::get`: the type found by the content matchers, as its MIME name.
#[verifier::external_body]
pub(crate) fn sniff_mime(data: &Vec<u8>) -> (r: Option<String>)
    ensures
        match r {
            Some(m) => sniffed_mime(data@) == Some(m@),
            None => sniffed_mime(data@) is None,
        },
{
    match infer::get(data) {
        Some(t) => Some(t.mime_type().to_string()),
        None => None,
    }
}

/// Relies on `hex::decode_to_slice` into 32 bytes: two digits of either case per byte,
/// and an error for any other length or character.
#[verifier::external_body]
pub(crate) fn decode_hex_digest(text: &[u8]) -> (r: Result<[u8; 32], hex::FromHexError>)
    ensures
        match r {
            Ok(d) => is_hex_digest(text@) && forall|i: int| 0 <= i < 32 ==> d@[i] == hex_byte(text@, i),
            Err(_) => !is_hex_digest(text@),
        },
{
    let mut out = [0u8; 32];
    match hex::decode_to_slice(text, &mut out) {
        Ok(()) => Ok(out),
        Err(e) => Err(e),
    }
}

/// Whether a freshly computed digest equals the checksum recorded remotely; a missing
/// checksum never matches.
pub open spec fn checksum_agrees(remote_checksum: Option<[u8; 32]>, digest: Seq<u8>) -> bool {
    match remote_checksum {
        Some(d) => d@ == digest,
        None => false,
    }
}

/// Compares a digest with the checksum recorded remotely.
pub fn checksum_matches(digest: &[u8; 32], remote_checksum: &Option<[u8; 32]>) -> (r: bool)
    ensures
        r == checksum_agrees(*remote_checksum, digest@),
{
    match remote_checksum {
        Some(d) => {
            let d: [u8; 32] = *d;
            let mut i: usize = 0;
            while i < 32
                invariant
                    i <= 32,
                    *remote_checksum == Some(d),
                    d@.len() == 32,
                    digest@.len() == 32,
                    forall|j: int| 0 <= j < i ==> d@[j] == digest@[j],
                decreases 32 - i,
            {
                if d[i] != digest[i] {
                    assert(d@[i as int] != digest@[i as int]);
                    return false;
                }
                i += 1;
            }
            assert(d@ =~= digest@);
            true
        },
        None => false,
    }
}

} // verus!
