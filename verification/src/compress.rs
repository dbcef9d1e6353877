//! The codec of loose object files: zlib streams.

use flate2::read::ZlibDecoder;
use flate2::write::ZlibEncoder;
use flate2::Compression;
use std::io::Read;
use std::io::Write;
use vstd::prelude::*;

verus! {

/// The zlib stream that the encoder makes of `data` at its default level:
/// nothing where the encoder reports an error.
pub uninterp spec fn zlib_deflated(data: Seq<u8>) -> Option<Seq<u8>>;

/// What the decoder reads out of the zlib stream `data`: nothing where the
/// stream is damaged.
pub uninterp spec fn zlib_inflated(data: Seq<u8>) -> Option<Seq<u8>>;

/// `flate2::write::ZlibEncoder` over a `Vec`, fed all of `data` and finished:
/// the stream named above, or `None` where the encoder reports an error. A
/// stream that it made reads back as `data`. It is not claimed that it
/// succeeds.
#[verifier::external_body]
pub(crate) fn zlib_deflate(data: &[u8]) -> (out: Option<Vec<u8>>)
    ensures
        match out {
            Some(v) => zlib_deflated(data@) == Some(v@) && zlib_inflated(v@) == Some(data@),
            None => zlib_deflated(data@) is None,
        },
{
    let mut encoder = ZlibEncoder::new(Vec::new(), Compression::default());
    match encoder.write_all(data) {
        Ok(_) => encoder.finish().ok(),
        Err(_) => None,
    }
}

/// `flate2::read::ZlibDecoder` over `data`, read to its end: the bytes that
/// come out, or `None` where the decoder reports an error.
#[verifier::external_body]
pub(crate) fn zlib_inflate(data: &[u8]) -> (out: Option<Vec<u8>>)
    ensures
        match out {
            Some(v) => zlib_inflated(data@) == Some(v@),
            None => zlib_inflated(data@) is None,
        },
{
    let mut out = Vec::new();
    match ZlibDecoder::new(data).read_to_end(&mut out) {
        Ok(_) => Some(out),
        Err(_) => None,
    }
}

} // verus!
