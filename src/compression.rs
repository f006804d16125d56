//! Possible ZIP compression methods.
use vstd::prelude::*;

verus! {

/// Compression methods for the contents of a ZIP file.
#[derive(Clone, Copy, Debug, PartialEq, Eq, Structural)]
pub enum CompressionMethod {
    /// The file is stored (no compression)
    Stored,
    /// Deflate in pure rust
    Deflated,
    /// File is compressed using BZIP2 algorithm
    Bzip2,
    /// Unsupported compression method
    Unsupported(u16),
}

impl CompressionMethod {
    /// The method that the stored number `val` names.
    pub open spec fn spec_from_u16(val: u16) -> CompressionMethod {
        if val == 0 {
            CompressionMethod::Stored
        } else if val == 8 {
            CompressionMethod::Deflated
        } else if val == 12 {
            CompressionMethod::Bzip2
        } else {
            CompressionMethod::Unsupported(val)
        }
    }

    /// Converts a u16 to its corresponding CompressionMethod
    pub fn from_u16(val: u16) -> (r: CompressionMethod)
        ensures
            r == CompressionMethod::spec_from_u16(val),
    {
        if val == 0 {
            CompressionMethod::Stored
        } else if val == 8 {
            CompressionMethod::Deflated
        } else if val == 12 {
            CompressionMethod::Bzip2
        } else {
            CompressionMethod::Unsupported(val)
        }
    }
}

} // verus!
