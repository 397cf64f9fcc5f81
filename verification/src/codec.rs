//! Compressed bytes.
use std::io::Write;

use flate2::write::{DeflateDecoder, DeflateEncoder};
use flate2::Compression;
use vstd::prelude::*;

verus! {

/// An error of an encoder or a decoder, carried through unread.
#[verifier::external_type_specification]
#[verifier::external_body]
pub struct ExIoError(std::io::Error);

/// What `flate2::write::DeflateEncoder`, at its fast level, makes of `data`;
/// `None` if it reports an error.
pub uninterp spec fn deflated(data: Seq<u8>) -> Option<Seq<u8>>;

/// What `flate2::write::DeflateDecoder` makes of `data`; `None` if it reports an
/// error.
pub uninterp spec fn inflated(data: Seq<u8>) -> Option<Seq<u8>>;

/// Compresses `data` with `flate2::write::DeflateEncoder` at its fast level:
/// all of it is written to one encoder, and the stream is finished.  The result
/// depends on `data` alone, and the decoder gives back from it what went in.
#[verifier::external_body]
pub(crate) fn deflate(data: &[u8]) -> (r: Result<Vec<u8>, std::io::Error>)
    ensures
        match r {
            Ok(bytes) => deflated(data@) == Some(bytes@) && inflated(bytes@) == Some(data@),
            Err(_) => deflated(data@) is None,
        },
{
    let mut encoder = DeflateEncoder::new(Vec::new(), Compression::fast());
    encoder.write_all(data)?;
    encoder.finish()
}

/// Decompresses `data` with `flate2::write::DeflateDecoder`: all of it is
/// written to one decoder, and the stream is finished.  Whether that succeeds,
/// and what comes out, depends on `data` alone.
#[verifier::external_body]
pub(crate) fn inflate(data: &[u8]) -> (r: Result<Vec<u8>, std::io::Error>)
    ensures
        match r {
            Ok(bytes) => inflated(data@) == Some(bytes@),
            Err(_) => inflated(data@) is None,
        },
{
    let mut decoder = DeflateDecoder::new(Vec::new());
    decoder.write_all(data)?;
    decoder.finish()
}

} // verus!
