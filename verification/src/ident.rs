//! Identifiers derived from a file's path: the MD5 digest of the path, written in
//! lower-case hexadecimal.

use crate::text::string_from_chars;
use vstd::prelude::*;

verus! {

/// The MD5 digest of `data`, sixteen bytes, as the `md5` crate computes it.
pub uninterp spec fn md5_digest(data: Seq<u8>) -> Seq<u8>;

/// The lower-case hexadecimal digit for a value below sixteen.
pub open spec fn hex_digit(n: u8) -> char {
    if n < 10 {
        (0x30 + n) as u8 as char
    } else {
        (0x57 + n) as u8 as char
    }
}

/// `bytes` in lower-case hexadecimal, two digits for each byte, the high half first.
pub open spec fn hex_lower(bytes: Seq<u8>) -> Seq<char> {
    Seq::new(
        2 * bytes.len(),
        |i: int|
            if i % 2 == 0 {
                hex_digit(bytes[i / 2] >> 4)
            } else {
                hex_digit(bytes[i / 2] & 0x0f)
            },
    )
}

/// The identifier that belongs to a path: the MD5 digest of the path's UTF-8 bytes in
/// lower-case hexadecimal, thirty-two digits.
pub open spec fn path_id(path: Seq<char>) -> Seq<char> {
    hex_lower(md5_digest(vstd::utf8::encode_utf8(path)))
}

/// `md5::compute` on `data`, with the sixteen bytes of the digest it returns. The
/// digest depends on the bytes of `data` alone; nothing more is claimed of it.
#[verifier::external_body]
pub(crate) fn md5_of(data: &[u8]) -> (digest: [u8; 16])
    ensures
        digest@ == md5_digest(data@),
{
    md5::compute(data).0
}

/// The hexadecimal digit for `n`.
fn digit(n: u8) -> (c: char)
    requires
        n < 16,
    ensures
        c == hex_digit(n),
{
    if n < 10 {
        (0x30 + n) as char
    } else {
        (0x57 + n) as char
    }
}

/// Writes `bytes` in lower-case hexadecimal.
pub fn to_hex(bytes: &[u8]) -> (text: String)
    ensures
        text@ == hex_lower(bytes@),
{
    let mut out: Vec<char> = Vec::new();
    let mut i: usize = 0;
    while i < bytes.len()
        invariant
            0 <= i <= bytes.len(),
            out@ == hex_lower(bytes@.take(i as int)),
        decreases bytes.len() - i,
    {
        let b: u8 = bytes[i];
        let hi: u8 = b >> 4;
        let lo: u8 = b & 0x0f;
        assert(hi < 16) by (bit_vector)
            requires
                hi == b >> 4,
        ;
        assert(lo < 16) by (bit_vector)
            requires
                lo == b & 0x0f,
        ;
        let ghost before = bytes@.take(i as int);
        let ghost after = bytes@.take(i + 1);
        out.push(digit(hi));
        out.push(digit(lo));
        proof {
            assert(after.len() == i + 1);
            assert forall|k: int| 0 <= k < 2 * (i + 1) implies out@[k] == hex_lower(after)[k] by {
                if k < 2 * i {
                    assert(after[k / 2] == before[k / 2]);
                    assert(out@[k] == hex_lower(before)[k]);
                } else {
                    assert(k / 2 == i);
                    assert(after[k / 2] == b);
                }
            }
            assert(out@ =~= hex_lower(after));
        }
        i = i + 1;
    }
    assert(bytes@.take(bytes@.len() as int) =~= bytes@);
    string_from_chars(&out)
}

/// The identifier of the document at `path`. It depends on the path alone, so the
/// same path gives the same identifier in every run.
pub fn hash_id(path: &str) -> (id: String)
    ensures
        id@ == path_id(path@),
{
    let digest = md5_of(path.as_bytes());
    to_hex(digest.as_slice())
}

} // verus!
