//! Reading ZIP archives held in memory: locating the central directory
//! (ZIP64 and prepended data included), decoding per-entry metadata, and
//! producing each entry's bytes through decryption, decompression and a
//! CRC-32 check.
//!
//! Where several entries share a name, lookups by name reach the last of
//! them; every entry stays reachable by index.
use vstd::prelude::*;

pub mod compression;
pub mod cp437;
pub mod crc32;
pub mod decode;
pub mod path;
pub mod prefix;
pub mod read;
pub mod result;
pub mod spec;
pub mod text;
pub mod types;
pub mod zipcrypto;

pub use crate::compression::CompressionMethod;
pub use crate::read::{read_zipfile_from_stream, ExtractStep, ZipArchive, ZipFile};
pub use crate::result::{InvalidPassword, IoErrorKind, ZipError, ZipResult};
pub use crate::types::{DateTime, System};

verus! {

} // verus!
