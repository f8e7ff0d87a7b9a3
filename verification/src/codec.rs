//! The outside codecs the containers rely on: LZ4 frames and SHA-256.
use vstd::prelude::*;

use lz4_flex::frame::{FrameDecoder, FrameEncoder};
use sha2::{Digest, Sha256};
use std::io::{Cursor, Read, Write};

use crate::container::EncodeError;

verus! {

/// `std::io::Error`, carried through as the cause of a failed (de)compression.
#[verifier::external_type_specification]
#[verifier::external_body]
pub struct ExIoError(std::io::Error);

/// `lz4_flex::frame::Error`, carried through when an LZ4 frame cannot be finalized.
#[verifier::external_type_specification]
#[verifier::external_body]
pub struct ExLz4FrameError(lz4_flex::frame::Error);

/// The SHA-256 digest of `data` as `sha2` computes it.
pub uninterp spec fn sha256_digest(data: Seq<u8>) -> Seq<u8>;

/// The LZ4 frame that `lz4_flex`'s default `FrameEncoder` writes for `data`.
pub uninterp spec fn lz4_frame_encoded(data: Seq<u8>) -> Seq<u8>;

/// What `lz4_flex`'s `FrameDecoder` reads out of `frame`: `None` when it rejects the frame.
pub uninterp spec fn lz4_frame_decoded(frame: Seq<u8>) -> Option<Seq<u8>>;

/// Calls `sha2::Sha256::digest`. Claimed: the result is the 32-byte SHA-256 digest of
/// `data`, the same for the same bytes.
#[verifier::external_body]
pub(crate) fn sha256(data: &[u8]) -> (r: Vec<u8>)
    ensures
        r@ == sha256_digest(data@),
        r@.len() == 32,
{
    Sha256::digest(data).to_vec()
}

/// Calls `lz4_flex::frame::FrameEncoder` (default frame settings) over an in-memory
/// buffer: `write_all` of `data`, then `finish`. Claimed: it succeeds (the encoder sizes
/// its block buffer to the largest compressed block, sets no content size, and a `Vec`
/// accepts every write), and the bytes are the frame encoding of `data`, which
/// `FrameDecoder` reads back as `data` (the frame format is lossless).
#[verifier::external_body]
pub(crate) fn lz4_frame_compress(data: &[u8]) -> (r: Result<Vec<u8>, EncodeError>)
    ensures
        r is Ok,
        r matches Ok(v) ==> v@ == lz4_frame_encoded(data@),
        r matches Ok(v) ==> lz4_frame_decoded(v@) == Some(data@),
{
    let mut encoder = FrameEncoder::new(Vec::new());
    match encoder.write_all(data) {
        Ok(()) => {},
        Err(e) => return Err(EncodeError::Compression(e)),
    }
    match encoder.finish() {
        Ok(v) => Ok(v),
        Err(e) => Err(EncodeError::CompressionFrame(e)),
    }
}

/// Calls `lz4_flex::frame::FrameDecoder::read_to_end` over `frame`. Claimed: it succeeds
/// exactly when the frame decodes, and then returns the decoded bytes.
#[verifier::external_body]
pub(crate) fn lz4_frame_decompress(frame: &[u8]) -> (r: Result<Vec<u8>, std::io::Error>)
    ensures
        match r {
            Ok(v) => lz4_frame_decoded(frame@) == Some(v@),
            Err(_) => lz4_frame_decoded(frame@) is None,
        },
{
    let mut decoder = FrameDecoder::new(Cursor::new(frame));
    let mut output = Vec::new();
    match decoder.read_to_end(&mut output) {
        Ok(_) => Ok(output),
        Err(e) => Err(e),
    }
}

} // verus!
