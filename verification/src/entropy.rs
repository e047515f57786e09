//! The entropy-codec stage: opaque, lossless byte-stream compression
//! provided by zstd.
//!
//! The encoded form of a byte sequence has no short description, so it is
//! only named here; what the contracts rely on is that encoding is a
//! function of the input bytes alone and that decoding an encoded stream
//! yields the original input back.

use vstd::prelude::*;

verus! {

/// The zstd frame that encoding a byte sequence at the default effort level
/// produces.
pub uninterp spec fn zstd_encode_of(b: Seq<u8>) -> Seq<u8>;

/// What decoding a byte sequence as a zstd frame yields: the decoded bytes,
/// or nothing when the sequence is not a well-formed frame.
pub uninterp spec fn zstd_decode_of(b: Seq<u8>) -> Option<Seq<u8>>;

/// Relies on zstd::stream::encode_all at level 0 (the default effort
/// level): the encoding is a function of the input bytes alone, and
/// zstd::stream::decode_all restores the input from it exactly.
#[verifier::external_body]
pub(crate) fn zstd_encode(data: &[u8]) -> (r: Result<Vec<u8>, String>)
    ensures
        r matches Ok(v) ==> v@ == zstd_encode_of(data@) && zstd_decode_of(v@) == Some(data@),
{
    match zstd::encode_all(data, 0) {
        Ok(v) => Ok(v),
        Err(e) => Err(e.to_string()),
    }
}

/// Relies on zstd::stream::decode_all: decoding is determined by the input
/// bytes alone, and fails exactly on byte sequences that are not
/// well-formed zstd frames.
#[verifier::external_body]
pub(crate) fn zstd_decode(data: &[u8]) -> (r: Result<Vec<u8>, String>)
    ensures
        r matches Ok(v) ==> zstd_decode_of(data@) == Some(v@),
        r matches Err(_) ==> zstd_decode_of(data@) is None,
{
    match zstd::decode_all(data) {
        Ok(v) => Ok(v),
        Err(e) => Err(e.to_string()),
    }
}

} // verus!
