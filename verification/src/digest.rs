//! SHA-256 and the proof-of-work target.

use crate::text::hex;
use crate::text::hex_encode;
use sha2::Digest;
use sha2::Sha256;
use vstd::prelude::*;
use vstd::utf8::encode_utf8;

verus! {

/// The SHA-256 digest of a byte string, as `sha2` computes it.
pub uninterp spec fn sha256(data: Seq<u8>) -> Seq<u8>;

/// `Sha256::digest` of the `sha2` crate: the digest of `data` in one call.
/// The contract names the digest and states its length, which the type of
/// the outside function's result fixes at 32 bytes.
#[verifier::external_body]
pub(crate) fn sha256_digest(data: &[u8]) -> (out: Vec<u8>)
    ensures
        out@ == sha256(data@),
        out@.len() == 32,
{
    Sha256::digest(data).to_vec()
}

/// `sha256::digest` on a byte slice. Its source hex-encodes, with
/// `hex::encode`, what `Sha256::digest` of the `sha2` crate returns for the
/// same bytes; the contract says so.
#[verifier::external_body]
pub(crate) fn sha256_hex(data: &[u8]) -> (out: String)
    ensures
        out@ == hex(sha256(data@)),
{
    sha256::digest(data)
}

/// The SHA-256 digest of a text's UTF-8 bytes.
pub open spec fn digest_of(text: Seq<char>) -> Seq<u8> {
    sha256(encode_utf8(text))
}

/// The SHA-256 digest of a text's UTF-8 bytes, in lowercase hexadecimal.
pub open spec fn hex_digest_of(text: Seq<char>) -> Seq<char> {
    hex(digest_of(text))
}

/// Hashes the bytes of `text`.
pub fn digest_text(text: &str) -> (out: Vec<u8>)
    ensures
        out@ == digest_of(text@),
        out@.len() == 32,
{
    sha256_digest(text.as_bytes())
}

/// Hashes the bytes of `text` and writes the digest in hexadecimal.
pub fn hex_digest_text(text: &str) -> (out: String)
    ensures
        out@ == hex_digest_of(text@),
        out@.len() == 64,
{
    let digest = sha256_digest(text.as_bytes());
    hex_encode(digest.as_slice())
}

/// How many zero bits a byte starts with, from its highest bit down.
pub open spec fn leading_zeros(byte: u8) -> nat {
    if byte >= 128 {
        0
    } else if byte >= 64 {
        1
    } else if byte >= 32 {
        2
    } else if byte >= 16 {
        3
    } else if byte >= 8 {
        4
    } else if byte >= 4 {
        5
    } else if byte >= 2 {
        6
    } else if byte >= 1 {
        7
    } else {
        8
    }
}

/// How many zero bits a byte string starts with, read as one big-endian bit
/// string.
pub open spec fn leading_zero_bits(bytes: Seq<u8>) -> nat
    decreases bytes.len(),
{
    if bytes.len() == 0 {
        0
    } else if bytes[0] == 0 {
        8 + leading_zero_bits(bytes.drop_first())
    } else {
        leading_zeros(bytes[0])
    }
}

/// The proof-of-work target: the hash starts with at least `difficulty` zero
/// bits.
pub open spec fn meets_target(hash: Seq<u8>, difficulty: u8) -> bool {
    leading_zero_bits(hash) >= difficulty
}

/// Counts the zero bits that `byte` starts with.
pub fn count_leading_zeros(byte: u8) -> (count: u32)
    ensures
        count == leading_zeros(byte),
{
    if byte >= 128 {
        0
    } else if byte >= 64 {
        1
    } else if byte >= 32 {
        2
    } else if byte >= 16 {
        3
    } else if byte >= 8 {
        4
    } else if byte >= 4 {
        5
    } else if byte >= 2 {
        6
    } else if byte >= 1 {
        7
    } else {
        8
    }
}

/// Behind `n` zero bytes, the count goes on from `8 * n`.
proof fn lemma_zero_bytes(bytes: Seq<u8>, n: int)
    requires
        0 <= n <= bytes.len(),
        forall|j: int| 0 <= j < n ==> bytes[j] == 0,
    ensures
        leading_zero_bits(bytes) == 8 * n + leading_zero_bits(bytes.skip(n)),
    decreases n,
{
    if n == 0 {
        assert(bytes.skip(0) =~= bytes);
    } else {
        lemma_zero_bytes(bytes.drop_first(), n - 1);
        assert(bytes.drop_first().skip(n - 1) =~= bytes.skip(n));
    }
}

/// Tells whether `hash` starts with at least `difficulty` zero bits.
pub fn hash_meets_target(hash: &[u8], difficulty: u8) -> (met: bool)
    ensures
        met == meets_target(hash@, difficulty),
{
    let mut zeros: u32 = 0;
    let mut i: usize = 0;
    while i < hash.len() && zeros < difficulty as u32
        invariant
            i <= hash.len(),
            zeros == 8 * i,
            zeros <= 255 + 8,
            forall|j: int| 0 <= j < i ==> hash@[j] == 0,
        decreases hash.len() - i,
    {
        if hash[i] != 0 {
            proof {
                lemma_zero_bytes(hash@, i as int);
            }
            return zeros + count_leading_zeros(hash[i]) >= difficulty as u32;
        }
        zeros = zeros + 8;
        i = i + 1;
    }
    proof {
        lemma_zero_bytes(hash@, i as int);
    }
    zeros >= difficulty as u32
}

} // verus!
