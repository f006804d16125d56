//! Little-endian field decoding and the fixed-layout records of the format.
use crate::result::{eof_error, ZipError, ZipResult, IoErrorKind};
use vstd::prelude::*;

verus! {

/// Signature of a local file header.
pub const LOCAL_FILE_HEADER_SIGNATURE: u32 = 0x04034b50;
/// Signature of a central directory file header.
pub const CENTRAL_DIRECTORY_HEADER_SIGNATURE: u32 = 0x02014b50;
/// Signature of the end of central directory record.
pub const CENTRAL_DIRECTORY_END_SIGNATURE: u32 = 0x06054b50;
/// Signature of the ZIP64 end of central directory record.
pub const ZIP64_CENTRAL_DIRECTORY_END_SIGNATURE: u32 = 0x06064b50;
/// Signature of the ZIP64 end of central directory locator.
pub const ZIP64_CENTRAL_DIRECTORY_END_LOCATOR_SIGNATURE: u32 = 0x07064b50;

/// The little-endian u16 stored at `p`.
pub open spec fn u16_le(s: Seq<u8>, p: int) -> u16 {
    (s[p] + 0x100 * s[p + 1]) as u16
}

/// The little-endian u32 stored at `p`.
pub open spec fn u32_le(s: Seq<u8>, p: int) -> u32 {
    (s[p] + 0x100 * s[p + 1] + 0x1_0000 * s[p + 2] + 0x100_0000 * s[p + 3]) as u32
}

/// The little-endian u64 stored at `p`.
pub open spec fn u64_le(s: Seq<u8>, p: int) -> u64 {
    (u32_le(s, p) + 0x1_0000_0000 * u32_le(s, p + 4)) as u64
}

/// Reads the little-endian u16 at `p`.
pub fn read_u16(s: &[u8], p: usize) -> (r: ZipResult<u16>)
    ensures
        p + 2 <= s@.len() ==> r == Ok::<u16, ZipError>(u16_le(s@, p as int)),
        p + 2 > s@.len() ==> r == Err::<u16, ZipError>(eof_error()),
{
    if p > s.len() || s.len() - p < 2 {
        return Err(ZipError::Io(IoErrorKind::UnexpectedEof));
    }
    Ok(s[p] as u16 + 0x100 * (s[p + 1] as u16))
}

/// Reads the little-endian u32 at `p`.
pub fn read_u32(s: &[u8], p: usize) -> (r: ZipResult<u32>)
    ensures
        p + 4 <= s@.len() ==> r == Ok::<u32, ZipError>(u32_le(s@, p as int)),
        p + 4 > s@.len() ==> r == Err::<u32, ZipError>(eof_error()),
{
    if p > s.len() || s.len() - p < 4 {
        return Err(ZipError::Io(IoErrorKind::UnexpectedEof));
    }
    Ok(s[p] as u32 + 0x100 * (s[p + 1] as u32) + 0x1_0000 * (s[p + 2] as u32) + 0x100_0000 * (
    s[p + 3] as u32))
}

/// Reads the little-endian u64 at `p`.
pub fn read_u64(s: &[u8], p: usize) -> (r: ZipResult<u64>)
    ensures
        p + 8 <= s@.len() ==> r == Ok::<u64, ZipError>(u64_le(s@, p as int)),
        p + 8 > s@.len() ==> r == Err::<u64, ZipError>(eof_error()),
{
    if p > s.len() || s.len() - p < 8 {
        return Err(ZipError::Io(IoErrorKind::UnexpectedEof));
    }
    let lo = read_u32(s, p)?;
    let hi = read_u32(s, p + 4)?;
    Ok(lo as u64 + 0x1_0000_0000 * (hi as u64))
}

/// The end of central directory record.
pub struct CentralDirectoryEnd {
    pub disk_number: u16,
    pub disk_with_central_directory: u16,
    pub number_of_files_on_this_disk: u16,
    pub number_of_files: u16,
    pub central_directory_size: u32,
    pub central_directory_offset: u32,
    pub zip_file_comment: Vec<u8>,
}

/// Length of the comment of the end record whose signature is at `p`.
pub open spec fn eocd_comment_len(s: Seq<u8>, p: int) -> int {
    u16_le(s, p + 20) as int
}

/// The end record at `p` fits in `s`, comment included.
pub open spec fn eocd_fits(s: Seq<u8>, p: int) -> bool {
    0 <= p && p + 22 + eocd_comment_len(s, p) <= s.len()
}

impl CentralDirectoryEnd {
    /// The record holds the fields stored at `p`.
    pub open spec fn decoded_from(&self, s: Seq<u8>, p: int) -> bool {
        &&& self.disk_number == u16_le(s, p + 4)
        &&& self.disk_with_central_directory == u16_le(s, p + 6)
        &&& self.number_of_files_on_this_disk == u16_le(s, p + 8)
        &&& self.number_of_files == u16_le(s, p + 10)
        &&& self.central_directory_size == u32_le(s, p + 12)
        &&& self.central_directory_offset == u32_le(s, p + 16)
        &&& self.zip_file_comment@ == s.subrange(p + 22, p + 22 + eocd_comment_len(s, p))
    }

    /// Decodes the record whose signature stands at `p`.
    pub fn parse(s: &[u8], p: usize) -> (r: ZipResult<CentralDirectoryEnd>)
        requires
            p + 22 <= s@.len(),
        ensures
            eocd_fits(s@, p as int) ==> (r is Ok && r->Ok_0.decoded_from(s@, p as int)),
            !eocd_fits(s@, p as int) ==> r == Err::<CentralDirectoryEnd, ZipError>(eof_error()),
    {
        let n = s.len();
        assert(p + 22 <= n);
        let disk_number = read_u16(s, p + 4)?;
        let disk_with_central_directory = read_u16(s, p + 6)?;
        let number_of_files_on_this_disk = read_u16(s, p + 8)?;
        let number_of_files = read_u16(s, p + 10)?;
        let central_directory_size = read_u32(s, p + 12)?;
        let central_directory_offset = read_u32(s, p + 16)?;
        let comment_len = read_u16(s, p + 20)?;
        let start = p + 22;
        if s.len() - start < comment_len as usize {
            return Err(ZipError::Io(IoErrorKind::UnexpectedEof));
        }
        let zip_file_comment = copy_range(s, start, start + comment_len as usize);
        Ok(CentralDirectoryEnd {
            disk_number,
            disk_with_central_directory,
            number_of_files_on_this_disk,
            number_of_files,
            central_directory_size,
            central_directory_offset,
            zip_file_comment,
        })
    }

    /// Finds the last end record signature in the search window at the tail of
    /// `s` and decodes the record; returns it with the signature's offset.
    pub fn find_and_parse(s: &[u8]) -> (r: ZipResult<(CentralDirectoryEnd, u64)>)
        ensures
            match find_eocd(s@) {
                None => r == Err::<(CentralDirectoryEnd, u64), ZipError>(
                    ZipError::InvalidArchive("Could not find central directory end"),
                ),
                Some(p) => if eocd_fits(s@, p) {
                    r is Ok && r->Ok_0.1 == p && r->Ok_0.0.decoded_from(s@, p)
                } else {
                    r == Err::<(CentralDirectoryEnd, u64), ZipError>(eof_error())
                },
            },
    {
        if s.len() < 22 {
            return Err(ZipError::InvalidArchive("Could not find central directory end"));
        }
        let lower: usize = if s.len() > 22 + 65535 {
            s.len() - (22 + 65535)
        } else {
            0
        };
        let mut pos: usize = s.len() - 22;
        loop
            invariant
                lower <= pos <= s@.len() - 22,
                lower == eocd_search_lower(s@),
                find_eocd(s@) == last_eocd(s@, pos as int, lower as int),
            decreases pos,
        {
            let sig = read_u32(s, pos)?;
            if sig == CENTRAL_DIRECTORY_END_SIGNATURE {
                let cde = CentralDirectoryEnd::parse(s, pos)?;
                return Ok((cde, pos as u64));
            }
            if pos == lower {
                assert(last_eocd(s@, pos - 1, lower as int) == None::<int>);
                return Err(ZipError::InvalidArchive("Could not find central directory end"));
            }
            pos = pos - 1;
        }
    }
}

/// Lowest offset at which the end record may start: its comment is at most
/// 65535 bytes long.
pub open spec fn eocd_search_lower(s: Seq<u8>) -> int {
    if s.len() > 22 + 65535 {
        s.len() - (22 + 65535)
    } else {
        0
    }
}

/// The largest offset in `lower..=p` holding the end record signature.
pub open spec fn last_eocd(s: Seq<u8>, p: int, lower: int) -> Option<int>
    decreases p + 1,
{
    if p < lower || p < 0 {
        None
    } else if u32_le(s, p) == CENTRAL_DIRECTORY_END_SIGNATURE {
        Some(p)
    } else {
        last_eocd(s, p - 1, lower)
    }
}

/// Where the end of central directory record of `s` starts: the last
/// signature within the search window.
pub open spec fn find_eocd(s: Seq<u8>) -> Option<int> {
    if s.len() < 22 {
        None
    } else {
        last_eocd(s, s.len() - 22, eocd_search_lower(s))
    }
}

/// A copy of `s[start..end]`.
pub fn copy_range(s: &[u8], start: usize, end: usize) -> (r: Vec<u8>)
    requires
        start <= end <= s@.len(),
    ensures
        r@ == s@.subrange(start as int, end as int),
{
    let mut r: Vec<u8> = Vec::with_capacity(end - start);
    let mut i: usize = start;
    while i < end
        invariant
            start <= i <= end <= s@.len(),
            r@ == s@.subrange(start as int, i as int),
        decreases end - i,
    {
        r.push(s[i]);
        i = i + 1;
    }
    r
}


/// The ZIP64 end of central directory locator.
pub struct Zip64CentralDirectoryEndLocator {
    pub disk_with_central_directory: u32,
    pub end_of_central_directory_offset: u64,
    pub number_of_disks: u32,
}

impl Zip64CentralDirectoryEndLocator {
    /// Decodes the locator at `p`: it fails as an invalid archive when the
    /// signature is not there.
    pub fn parse(s: &[u8], p: usize) -> (r: ZipResult<Zip64CentralDirectoryEndLocator>)
        ensures
            p + 4 > s@.len() ==> r == Err::<Zip64CentralDirectoryEndLocator, ZipError>(
                eof_error(),
            ),
            p + 4 <= s@.len() && u32_le(s@, p as int)
                != ZIP64_CENTRAL_DIRECTORY_END_LOCATOR_SIGNATURE ==> r == Err::<
                Zip64CentralDirectoryEndLocator,
                ZipError,
            >(ZipError::InvalidArchive("Invalid zip64 locator digital signature header")),
            p + 4 <= s@.len() && u32_le(s@, p as int)
                == ZIP64_CENTRAL_DIRECTORY_END_LOCATOR_SIGNATURE ==> if p + 20 <= s@.len() {
                &&& r is Ok
                &&& r->Ok_0.disk_with_central_directory == u32_le(s@, p + 4)
                &&& r->Ok_0.end_of_central_directory_offset == u64_le(s@, p + 8)
                &&& r->Ok_0.number_of_disks == u32_le(s@, p + 16)
            } else {
                r == Err::<Zip64CentralDirectoryEndLocator, ZipError>(eof_error())
            },
    {
        let sig = read_u32(s, p)?;
        if sig != ZIP64_CENTRAL_DIRECTORY_END_LOCATOR_SIGNATURE {
            return Err(ZipError::InvalidArchive("Invalid zip64 locator digital signature header"));
        }
        if s.len() - p < 20 {
            return Err(ZipError::Io(IoErrorKind::UnexpectedEof));
        }
        let disk_with_central_directory = read_u32(s, p + 4)?;
        let end_of_central_directory_offset = read_u64(s, p + 8)?;
        let number_of_disks = read_u32(s, p + 16)?;
        Ok(Zip64CentralDirectoryEndLocator {
            disk_with_central_directory,
            end_of_central_directory_offset,
            number_of_disks,
        })
    }
}

/// The ZIP64 end of central directory record.
pub struct Zip64CentralDirectoryEnd {
    pub version_made_by: u16,
    pub version_needed_to_extract: u16,
    pub disk_number: u32,
    pub disk_with_central_directory: u32,
    pub number_of_files_on_this_disk: u64,
    pub number_of_files: u64,
    pub central_directory_size: u64,
    pub central_directory_offset: u64,
}

/// Scanning forward from `p` up to `upper`: the first offset holding the
/// ZIP64 end record signature; a read past the end fails.
pub open spec fn scan_eocd64(s: Seq<u8>, p: int, upper: int) -> Result<int, ZipError>
    decreases upper + 1 - p,
{
    if p > upper {
        Err(ZipError::InvalidArchive("Could not find ZIP64 central directory end"))
    } else if p + 4 > s.len() {
        Err(eof_error())
    } else if u32_le(s, p) == ZIP64_CENTRAL_DIRECTORY_END_SIGNATURE {
        Ok(p)
    } else {
        scan_eocd64(s, p + 1, upper)
    }
}

impl Zip64CentralDirectoryEnd {
    /// The record holds the fields stored at `p`.
    pub open spec fn decoded_from(&self, s: Seq<u8>, p: int) -> bool {
        &&& self.version_made_by == u16_le(s, p + 12)
        &&& self.version_needed_to_extract == u16_le(s, p + 14)
        &&& self.disk_number == u32_le(s, p + 16)
        &&& self.disk_with_central_directory == u32_le(s, p + 20)
        &&& self.number_of_files_on_this_disk == u64_le(s, p + 24)
        &&& self.number_of_files == u64_le(s, p + 32)
        &&& self.central_directory_size == u64_le(s, p + 40)
        &&& self.central_directory_offset == u64_le(s, p + 48)
    }

    /// Searches forward from `nominal_offset` to `search_upper_bound` for the
    /// ZIP64 end record and decodes it; returns it with how far past its
    /// nominal offset it was found.
    pub fn find_and_parse(s: &[u8], nominal_offset: u64, search_upper_bound: u64) -> (r: ZipResult<
        (Zip64CentralDirectoryEnd, u64),
    >)
        ensures
            match scan_eocd64(s@, nominal_offset as int, search_upper_bound as int) {
                Err(e) => r == Err::<(Zip64CentralDirectoryEnd, u64), ZipError>(e),
                Ok(p) => if p + 56 <= s@.len() {
                    &&& r is Ok
                    &&& r->Ok_0.1 == p - nominal_offset
                    &&& r->Ok_0.0.decoded_from(s@, p)
                } else {
                    r == Err::<(Zip64CentralDirectoryEnd, u64), ZipError>(eof_error())
                },
            },
    {
        let mut pos: u64 = nominal_offset;
        while pos <= search_upper_bound
            invariant
                nominal_offset <= pos,
                scan_eocd64(s@, nominal_offset as int, search_upper_bound as int) == scan_eocd64(
                    s@,
                    pos as int,
                    search_upper_bound as int,
                ),
            decreases search_upper_bound + 1 - pos,
        {
            if pos >= s.len() as u64 {
                return Err(ZipError::Io(IoErrorKind::UnexpectedEof));
            }
            let p = pos as usize;
            let sig = read_u32(s, p)?;
            if sig == ZIP64_CENTRAL_DIRECTORY_END_SIGNATURE {
                if s.len() - p < 56 {
                    return Err(ZipError::Io(IoErrorKind::UnexpectedEof));
                }
                let version_made_by = read_u16(s, p + 12)?;
                let version_needed_to_extract = read_u16(s, p + 14)?;
                let disk_number = read_u32(s, p + 16)?;
                let disk_with_central_directory = read_u32(s, p + 20)?;
                let number_of_files_on_this_disk = read_u64(s, p + 24)?;
                let number_of_files = read_u64(s, p + 32)?;
                let central_directory_size = read_u64(s, p + 40)?;
                let central_directory_offset = read_u64(s, p + 48)?;
                return Ok((
                    Zip64CentralDirectoryEnd {
                        version_made_by,
                        version_needed_to_extract,
                        disk_number,
                        disk_with_central_directory,
                        number_of_files_on_this_disk,
                        number_of_files,
                        central_directory_size,
                        central_directory_offset,
                    },
                    pos - nominal_offset,
                ));
            }
            if pos == u64::MAX {
                return Err(ZipError::Io(IoErrorKind::UnexpectedEof));
            }
            pos = pos + 1;
        }
        Err(ZipError::InvalidArchive("Could not find ZIP64 central directory end"))
    }
}

} // verus!
