//! The decompressors that entries stored with deflate or bzip2 go through.
use crate::result::IoErrorKind;
use std::io::Read;
use vstd::prelude::*;

verus! {

#[verifier::external_type_specification]
#[verifier::external_body]
pub struct ExIoError(std::io::Error);

/// What a raw deflate stream `b` decodes to, or `None` where the decoder
/// refuses it.
pub uninterp spec fn inflated(b: Seq<u8>) -> Option<Seq<u8>>;

/// What a bzip2 stream `b` decodes to, or `None` where the decoder refuses it.
pub uninterp spec fn bunzipped(b: Seq<u8>) -> Option<Seq<u8>>;

/// Relies on `flate2::read::DeflateDecoder` read to its end: the output
/// depends on the input bytes alone.
#[verifier::external_body]
pub(crate) fn inflate(b: &[u8]) -> (r: Result<Vec<u8>, std::io::Error>)
    ensures
        r is Ok <==> inflated(b@) is Some,
        r is Ok ==> r->Ok_0@ == inflated(b@)->0,
{
    let mut out = Vec::new();
    flate2::read::DeflateDecoder::new(b).read_to_end(&mut out).map(|_| out)
}

/// Relies on `bzip2::read::BzDecoder` read to its end: the output depends on
/// the input bytes alone.
#[verifier::external_body]
pub(crate) fn bunzip(b: &[u8]) -> (r: Result<Vec<u8>, std::io::Error>)
    ensures
        r is Ok <==> bunzipped(b@) is Some,
        r is Ok ==> r->Ok_0@ == bunzipped(b@)->0,
{
    let mut out = Vec::new();
    bzip2::read::BzDecoder::new(b).read_to_end(&mut out).map(|_| out)
}

/// Relies on `std::io::Error::kind`: tells the kinds that this library
/// reports apart.
#[verifier::external_body]
pub(crate) fn io_error_kind(e: &std::io::Error) -> IoErrorKind {
    match e.kind() {
        std::io::ErrorKind::UnexpectedEof => IoErrorKind::UnexpectedEof,
        std::io::ErrorKind::InvalidData => IoErrorKind::InvalidData,
        std::io::ErrorKind::InvalidInput => IoErrorKind::InvalidInput,
        _ => IoErrorKind::Other,
    }
}

} // verus!
