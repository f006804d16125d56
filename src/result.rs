//! Error types that can be emitted from this library
use vstd::prelude::*;

verus! {

/// The kind of an I/O failure surfaced through [`ZipError::Io`].
#[derive(Clone, Copy, Debug, PartialEq, Eq, Structural)]
pub enum IoErrorKind {
    /// The source ended before the bytes that a structure needs.
    UnexpectedEof,
    /// Bytes were read but did not hold what they should (a checksum failed).
    InvalidData,
    /// A decoder refused its input.
    InvalidInput,
    /// Any other failure.
    Other,
}

/// Error type for Zip
#[derive(Clone, Copy, Debug)]
pub enum ZipError {
    /// An error caused by I/O
    Io(IoErrorKind),
    /// This file is probably not a zip archive
    InvalidArchive(&'static str),
    /// This archive is not supported
    UnsupportedArchive(&'static str),
    /// The requested file could not be found in the archive
    FileNotFound,
}

/// The password given to decrypt an entry did not pass the check bytes.
#[derive(Clone, Copy, Debug, PartialEq, Eq, Structural)]
pub struct InvalidPassword;

/// Generic result type with ZipError as its error variant
pub type ZipResult<T> = Result<T, ZipError>;

/// The error that a read past the end of the source gives.
pub open spec fn eof_error() -> ZipError {
    ZipError::Io(IoErrorKind::UnexpectedEof)
}

/// Fails with [`ZipError::UnsupportedArchive`] carrying `detail`.
pub fn unsupported_zip_error<T>(detail: &'static str) -> (r: ZipResult<T>)
    ensures
        r == Err::<T, ZipError>(ZipError::UnsupportedArchive(detail)),
{
    Err(ZipError::UnsupportedArchive(detail))
}

} // verus!
