//! Entry metadata: the host system, the compression method, MS-DOS
//! timestamps and the per-entry record.
use crate::compression::CompressionMethod;
use vstd::prelude::*;

verus! {

/// The system that wrote an entry (high byte of "version made by").
#[derive(Clone, Copy, Debug, PartialEq, Eq, Structural)]
pub enum System {
    Dos,
    Unix,
    Other(u8),
}

impl System {
    /// The system recorded by `system`.
    pub open spec fn spec_from_u8(system: u8) -> System {
        if system == 0 {
            System::Dos
        } else if system == 3 {
            System::Unix
        } else {
            System::Other(system)
        }
    }

    pub fn from_u8(system: u8) -> (r: System)
        ensures
            r == System::spec_from_u8(system),
    {
        if system == 0 {
            System::Dos
        } else if system == 3 {
            System::Unix
        } else {
            System::Other(system)
        }
    }
}

/// A date and time as an MS-DOS timestamp stores them.
#[derive(Clone, Copy, Debug, PartialEq, Eq, Structural)]
pub struct DateTime {
    pub year: u16,
    pub month: u8,
    pub day: u8,
    pub hour: u8,
    pub minute: u8,
    pub second: u8,
}

impl DateTime {
    /// The fields packed in an MS-DOS date and time: the date holds
    /// year-1980 (7 bits), month (4) and day (5); the time holds hour (5),
    /// minute (6) and second/2 (5).
    pub open spec fn spec_from_msdos(datepart: u16, timepart: u16) -> DateTime {
        DateTime {
            year: (datepart / 512 + 1980) as u16,
            month: ((datepart / 32) % 16) as u8,
            day: (datepart % 32) as u8,
            hour: (timepart / 2048) as u8,
            minute: ((timepart / 32) % 64) as u8,
            second: ((timepart % 32) * 2) as u8,
        }
    }

    /// Decodes an MS-DOS date and time.
    pub fn from_msdos(datepart: u16, timepart: u16) -> (r: DateTime)
        ensures
            r == DateTime::spec_from_msdos(datepart, timepart),
    {
        DateTime {
            year: datepart / 512 + 1980,
            month: ((datepart / 32) % 16) as u8,
            day: (datepart % 32) as u8,
            hour: (timepart / 2048) as u8,
            minute: ((timepart / 32) % 64) as u8,
            second: ((timepart % 32) * 2) as u8,
        }
    }

    pub fn year(&self) -> (r: u16)
        ensures
            r == self.year,
    {
        self.year
    }

    pub fn month(&self) -> (r: u8)
        ensures
            r == self.month,
    {
        self.month
    }

    pub fn day(&self) -> (r: u8)
        ensures
            r == self.day,
    {
        self.day
    }

    pub fn hour(&self) -> (r: u8)
        ensures
            r == self.hour,
    {
        self.hour
    }

    pub fn minute(&self) -> (r: u8)
        ensures
            r == self.minute,
    {
        self.minute
    }

    pub fn second(&self) -> (r: u8)
        ensures
            r == self.second,
    {
        self.second
    }
}

/// What an entry record holds, as mathematical values.
pub ghost struct FileModel {
    pub system: System,
    pub version_made_by: u8,
    pub encrypted: bool,
    pub using_data_descriptor: bool,
    pub compression_method: CompressionMethod,
    pub last_modified_time: DateTime,
    pub crc32: u32,
    pub compressed_size: u64,
    pub uncompressed_size: u64,
    pub file_name: Seq<char>,
    pub file_name_raw: Seq<u8>,
    pub file_comment: Seq<char>,
    pub header_start: u64,
    pub central_header_start: u64,
    pub data_start: u64,
    pub external_attributes: u32,
}

/// Structure representing a ZIP file.
#[derive(Clone, Debug)]
pub struct ZipFileData {
    pub system: System,
    pub version_made_by: u8,
    pub encrypted: bool,
    pub using_data_descriptor: bool,
    pub compression_method: CompressionMethod,
    pub last_modified_time: DateTime,
    pub crc32: u32,
    pub compressed_size: u64,
    pub uncompressed_size: u64,
    pub file_name: String,
    pub file_name_raw: Vec<u8>,
    pub file_comment: String,
    pub header_start: u64,
    pub central_header_start: u64,
    pub data_start: u64,
    pub external_attributes: u32,
}

impl View for ZipFileData {
    type V = FileModel;

    open spec fn view(&self) -> FileModel {
        FileModel {
            system: self.system,
            version_made_by: self.version_made_by,
            encrypted: self.encrypted,
            using_data_descriptor: self.using_data_descriptor,
            compression_method: self.compression_method,
            last_modified_time: self.last_modified_time,
            crc32: self.crc32,
            compressed_size: self.compressed_size,
            uncompressed_size: self.uncompressed_size,
            file_name: self.file_name@,
            file_name_raw: self.file_name_raw@,
            file_comment: self.file_comment@,
            header_start: self.header_start,
            central_header_start: self.central_header_start,
            data_start: self.data_start,
            external_attributes: self.external_attributes,
        }
    }
}

impl ZipFileData {
    /// A copy with the same fields.
    pub fn duplicate(&self) -> (r: ZipFileData)
        ensures
            r@ == self@,
    {
        ZipFileData {
            system: self.system,
            version_made_by: self.version_made_by,
            encrypted: self.encrypted,
            using_data_descriptor: self.using_data_descriptor,
            compression_method: self.compression_method,
            last_modified_time: self.last_modified_time,
            crc32: self.crc32,
            compressed_size: self.compressed_size,
            uncompressed_size: self.uncompressed_size,
            file_name: self.file_name.clone(),
            file_name_raw: self.file_name_raw.clone(),
            file_comment: self.file_comment.clone(),
            header_start: self.header_start,
            central_header_start: self.central_header_start,
            data_start: self.data_start,
            external_attributes: self.external_attributes,
        }
    }
}

} // verus!
