//! Payload compression, done by the `zstd` crate.
//!
//! What the compressor produces is not described here: it is named. The two
//! functions below are the only places where the library leaves verified
//! code for the outside crate, and their contracts are taken on trust. That
//! decompression undoes compression is claimed nowhere: where a proof needs
//! it, it asks for it.

use vstd::prelude::*;

verus! {

/// What `zstd::encode_all` returns for these bytes at this level: the
/// compressed frame, or the text of the failure.
pub uninterp spec fn zstd_encoded(data: Seq<u8>, level: i32) -> Result<Seq<u8>, Seq<char>>;

/// What `zstd::decode_all` returns for these bytes: the decompressed data,
/// or the text of the failure.
pub uninterp spec fn zstd_decoded(data: Seq<u8>) -> Result<Seq<u8>, Seq<char>>;

/// The mathematical value of an outcome of the compressor.
pub open spec fn outcome_view(r: Result<Vec<u8>, String>) -> Result<Seq<u8>, Seq<char>> {
    match r {
        Ok(bytes) => Ok(bytes@),
        Err(text) => Err(text@),
    }
}

/// `zstd::encode_all`: compresses `data` into one zstd frame. The result is
/// the named one; nothing more is claimed of it.
#[verifier::external_body]
pub(crate) fn zstd_encode_all(data: &[u8], level: i32) -> (r: Result<Vec<u8>, String>)
    ensures
        outcome_view(r) == zstd_encoded(data@, level),
{
    match zstd::encode_all(data, level) {
        Ok(frame) => Ok(frame),
        Err(e) => Err(e.to_string()),
    }
}

/// `zstd::decode_all`: decompresses zstd frames. The result is the named
/// one; nothing more is claimed of it.
#[verifier::external_body]
pub(crate) fn zstd_decode_all(data: &[u8]) -> (r: Result<Vec<u8>, String>)
    ensures
        outcome_view(r) == zstd_decoded(data@),
{
    match zstd::decode_all(data) {
        Ok(bytes) => Ok(bytes),
        Err(e) => Err(e.to_string()),
    }
}

} // verus!
