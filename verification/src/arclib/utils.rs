//! Content addresses: the MD5 digest of a byte string and its hexadecimal text.

use md5::{Digest, Md5};
use vstd::prelude::*;

verus! {

/// The MD5 digest of a byte sequence: what the hasher of the `md-5` crate
/// returns for it. MD5 is a fixed function of its input and always yields 16
/// bytes, which the result's type records.
pub uninterp spec fn md5_digest(data: Seq<u8>) -> [u8; 16];

/// The sixteen lowercase hexadecimal digits, in order of their value.
pub open spec fn hex_digits() -> Seq<char> {
    seq!['0', '1', '2', '3', '4', '5', '6', '7', '8', '9', 'a', 'b', 'c', 'd', 'e', 'f']
}

/// Lowercase hexadecimal text of a byte sequence: two digits for each byte,
/// the high half first.
pub open spec fn hex_lower(data: Seq<u8>) -> Seq<char> {
    Seq::new(
        2 * data.len(),
        |i: int|
            if i % 2 == 0 {
                hex_digits()[data[i / 2] as int / 16]
            } else {
                hex_digits()[data[i / 2] as int % 16]
            },
    )
}

/// Whether a character is one of `0`-`9` or `a`-`f`.
pub open spec fn is_lower_hex(c: char) -> bool {
    ('0' <= c && c <= '9') || ('a' <= c && c <= 'f')
}

/// The content address of a byte string: its MD5 digest in lowercase
/// hexadecimal text.
pub open spec fn digest_hex(data: Seq<u8>) -> Seq<char> {
    hex_lower(md5_digest(data)@)
}

/// Trusted: `Md5::digest` of the `md-5` crate, which hashes `data` in one
/// call. Nothing is proved of it; the contract only names its result.
#[verifier::external_body]
pub(crate) fn md5(data: &[u8]) -> (digest: [u8; 16])
    ensures
        digest == md5_digest(data@),
{
    Md5::digest(data).into()
}

/// Trusted: `hex::encode` of the `hex` crate. The contract states what its
/// documentation and source show: every byte becomes two lowercase digits
/// taken from the table `0123456789abcdef`, the high four bits first.
#[verifier::external_body]
pub(crate) fn hex_encode(data: &[u8]) -> (text: String)
    ensures
        text@ == hex_lower(data@),
{
    hex::encode(data)
}

/// Hexadecimal text of a digest that was already computed.
pub fn hex_string(digest: &[u8; 16]) -> (text: String)
    ensures
        text@ == hex_lower(digest@),
        text@.len() == 32,
{
    hex_encode(digest.as_slice())
}

/// The content address of `data`: 32 lowercase hexadecimal characters that
/// spell the MD5 digest of the bytes.
pub fn md5_string(data: &[u8]) -> (text: String)
    ensures
        text@ == digest_hex(data@),
{
    let digest = md5(data);
    hex_string(&digest)
}

/// Each character of a hexadecimal encoding is a lowercase hexadecimal digit.
pub proof fn lemma_hex_lower_chars(data: Seq<u8>)
    ensures
        hex_lower(data).len() == 2 * data.len(),
        forall|i: int| 0 <= i < 2 * data.len() ==> is_lower_hex(#[trigger] hex_lower(data)[i]),
{
    assert forall|i: int| 0 <= i < 2 * data.len() implies is_lower_hex(
        #[trigger] hex_lower(data)[i],
    ) by {
        let byte = data[i / 2] as int;
        let d = if i % 2 == 0 {
            byte / 16
        } else {
            byte % 16
        };
        assert(0 <= d < 16);
        assert(hex_lower(data)[i] == hex_digits()[d]);
        assert(is_lower_hex(hex_digits()[d]));
    }
}

/// A content address depends on the bytes alone, has exactly 32 characters,
/// all of them lowercase hexadecimal digits, and spells the MD5 digest of
/// the bytes.
pub proof fn lemma_digest_hex_shape(data: Seq<u8>)
    ensures
        digest_hex(data) == hex_lower(md5_digest(data)@),
        digest_hex(data).len() == 32,
        forall|i: int| 0 <= i < 32 ==> is_lower_hex(#[trigger] digest_hex(data)[i]),
{
    lemma_hex_lower_chars(md5_digest(data)@);
}

} // verus!
