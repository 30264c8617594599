//! The content hash of a payload.

use crate::utils::text::digit;
use vstd::prelude::*;

verus! {

/// The MD5 digest of `data`: sixteen bytes.
pub uninterp spec fn md5_sum(data: Seq<u8>) -> Seq<u8>;

/// The lower-case hexadecimal digit for `n`, which is below sixteen.
pub open spec fn hex_digit(n: nat) -> char {
    if n < 10 {
        digit(n)
    } else if n == 10 {
        'a'
    } else if n == 11 {
        'b'
    } else if n == 12 {
        'c'
    } else if n == 13 {
        'd'
    } else if n == 14 {
        'e'
    } else {
        'f'
    }
}

/// `bytes` in lower-case hexadecimal: two digits for each byte, the high
/// half first.
pub open spec fn hex_lower(bytes: Seq<u8>) -> Seq<char>
    decreases bytes.len(),
{
    if bytes.len() == 0 {
        Seq::empty()
    } else {
        hex_lower(bytes.drop_last()).push(hex_digit((bytes.last() / 16) as nat)).push(
            hex_digit((bytes.last() % 16) as nat),
        )
    }
}

/// The content hash of `payload`: its MD5 digest in hexadecimal.
pub open spec fn content_hash_of(payload: Seq<u8>) -> Seq<char> {
    hex_lower(md5_sum(payload))
}

/// Calls `md5::compute` on `data` and hands out the sixteen bytes of the
/// digest. The digest depends on the bytes of `data` alone.
#[verifier::external_body]
pub(crate) fn md5_digest(data: &[u8]) -> (d: Vec<u8>)
    ensures
        d@ == md5_sum(data@),
        d@.len() == 16,
{
    md5::compute(data).0.to_vec()
}

/// Calls `hex::encode` on `bytes`: each byte becomes two characters of
/// `0123456789abcdef`, the high half first, in the order of the bytes.
#[verifier::external_body]
pub(crate) fn hex_encode(bytes: &[u8]) -> (s: String)
    ensures
        s@ == hex_lower(bytes@),
{
    hex::encode(bytes)
}

/// The content hash of `payload`.
pub fn content_hash(payload: &[u8]) -> (h: String)
    ensures
        h@ == content_hash_of(payload@),
        h@.len() == 32,
{
    let digest = md5_digest(payload);
    proof {
        lemma_hex_lower_len(digest@);
    }
    hex_encode(digest.as_slice())
}

/// The length of hexadecimal text is twice the number of bytes.
pub proof fn lemma_hex_lower_len(bytes: Seq<u8>)
    ensures
        hex_lower(bytes).len() == 2 * bytes.len(),
    decreases bytes.len(),
{
    if bytes.len() > 0 {
        lemma_hex_lower_len(bytes.drop_last());
    }
}

} // verus!
