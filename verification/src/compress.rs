//! Compression and text encoding of opaque byte payloads, trusted at the
//! crate boundary.  Decoding is deterministic, so each decoder gets a name;
//! the encoders promise only that their output decodes back to the input.

use vstd::prelude::*;

use base64::Engine as _;

verus! {

/// What zstd decompression yields on a byte stream, or nothing when the
/// stream is not a valid frame.
pub uninterp spec fn unzstd_of(b: Seq<u8>) -> Option<Seq<u8>>;

/// What standard-alphabet base64 decoding yields on a string, or nothing
/// when it is not valid base64.
pub uninterp spec fn unbase64_of(s: Seq<char>) -> Option<Seq<u8>>;

/// What zstd compression at level 20 produces for a byte stream: the
/// single-threaded encoder takes no randomness, so at a fixed level it is
/// a function of the input bytes alone.
pub uninterp spec fn zstd_of(b: Seq<u8>) -> Seq<u8>;

/// What standard-alphabet base64 encoding (with padding) produces for a
/// byte stream: fixed by the alphabet, a function of the bytes alone.
pub uninterp spec fn base64_of(b: Seq<u8>) -> Seq<char>;

/// Relies on `zstd::encode_all` (level 20) and `zstd::decode_all`: zstd is
/// lossless, so decoding a frame it produced gives back the input.
#[verifier::external_body]
pub fn zstd_compress(input: &Vec<u8>) -> (r: Option<Vec<u8>>)
    ensures
        r matches Some(c) ==> c@ == zstd_of(input@) && unzstd_of(c@) == Some(input@),
{
    zstd::encode_all(input.as_slice(), 20).ok()
}

/// Relies on `zstd::decode_all`: decompression is a function of the input
/// bytes alone, failing exactly on invalid frames.
#[verifier::external_body]
pub fn zstd_decompress(input: &Vec<u8>) -> (r: Option<Vec<u8>>)
    ensures
        match unzstd_of(input@) {
            Some(v) => r matches Some(rv) && rv@ == v,
            None => r is None,
        },
{
    zstd::decode_all(input.as_slice()).ok()
}

/// Relies on `base64::engine::general_purpose::STANDARD.encode`: standard
/// base64 with padding, which its own decoder inverts.
#[verifier::external_body]
pub fn base64_encode(input: &Vec<u8>) -> (r: String)
    ensures
        r@ == base64_of(input@),
        unbase64_of(r@) == Some(input@),
{
    base64::engine::general_purpose::STANDARD.encode(input.as_slice())
}

/// Relies on `base64::engine::general_purpose::STANDARD.decode`: decoding is
/// a function of the input characters alone, failing exactly on invalid
/// base64.
#[verifier::external_body]
pub fn base64_decode(input: &str) -> (r: Option<Vec<u8>>)
    ensures
        match unbase64_of(input@) {
            Some(v) => r matches Some(rv) && rv@ == v,
            None => r is None,
        },
{
    base64::engine::general_purpose::STANDARD.decode(input).ok()
}

} // verus!
