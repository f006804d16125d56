//! Types for reading ZIP archives
use crate::compression::CompressionMethod;
use crate::cp437::{cp437_decode, from_cp437};
use crate::crc32::{checksum, crc32_of};
use crate::decode::{bunzip, bunzipped, inflate, inflated, io_error_kind};
use crate::result::{eof_error, unsupported_zip_error, InvalidPassword, IoErrorKind, ZipError, ZipResult};
use crate::spec::{
    copy_range, eocd_comment_len, eocd_fits, find_eocd, read_u16, read_u32, read_u64, scan_eocd64,
    u16_le, u32_le, u64_le, CentralDirectoryEnd, Zip64CentralDirectoryEnd,
    Zip64CentralDirectoryEndLocator, CENTRAL_DIRECTORY_HEADER_SIGNATURE,
    ZIP64_CENTRAL_DIRECTORY_END_LOCATOR_SIGNATURE, LOCAL_FILE_HEADER_SIGNATURE,
};
use crate::zipcrypto::{
    decrypt_seq, keys_after, keys_from_password, password_matches, ZipCryptoReader,
    ZipCryptoReaderValid,
};
use crate::path::{enclosed, is_enclosed, mangle, mangled};
use crate::text::{chars_of, decode_lossy, decode_strict, utf8_lossy};
use crate::types::{DateTime, FileModel, System, ZipFileData};
use vstd::prelude::*;
use vstd::utf8::{decode_utf8, valid_utf8};

verus! {

/// The ZIP64 fields of `f` that hold the 32-bit sentinel, replaced in order
/// (uncompressed size, compressed size, local header offset) by the u64
/// values read from `b` at `p`; `false` where `b` ends before one of them.
pub open spec fn apply_zip64(f: FileModel, b: Seq<u8>, p: int) -> (FileModel, bool) {
    let need_u = f.uncompressed_size == 0xFFFFFFFF;
    let p1 = if need_u { p + 8 } else { p };
    if p1 > b.len() {
        (f, false)
    } else {
        let f1 = if need_u { FileModel { uncompressed_size: u64_le(b, p), ..f } } else { f };
        let need_c = f1.compressed_size == 0xFFFFFFFF;
        let p2 = if need_c { p1 + 8 } else { p1 };
        if p2 > b.len() {
            (f1, false)
        } else {
            let f2 = if need_c { FileModel { compressed_size: u64_le(b, p1), ..f1 } } else { f1 };
            let need_h = f2.header_start == 0xFFFFFFFF;
            if need_h && p2 + 8 > b.len() {
                (f2, false)
            } else if need_h {
                (FileModel { header_start: u64_le(b, p2), ..f2 }, true)
            } else {
                (f2, true)
            }
        }
    }
}

/// The Info-ZIP Unicode path record of `len` bytes at `p`: version (1 byte),
/// CRC-32 of the stored name (4 bytes), then the name in UTF-8. The name of
/// `f` is replaced when the CRC matches and the bytes are valid UTF-8.
pub open spec fn apply_unicode_path(f: FileModel, b: Seq<u8>, p: int, len: int) -> (
    FileModel,
    bool,
) {
    if p + 5 > b.len() {
        (f, false)
    } else if len < 5 {
        (f, true)
    } else if p + len > b.len() {
        (f, false)
    } else {
        let name = b.subrange(p + 5, p + len);
        if crc32_of(f.file_name_raw) == u32_le(b, p + 1) && valid_utf8(name) {
            (FileModel { file_name: decode_utf8(name), ..f }, true)
        } else {
            (f, true)
        }
    }
}

/// Walks the extra field records of `b` from `p`: each is a kind (u16) and
/// a length (u16) followed by that many bytes, and the next record starts
/// right after them. Returns the updated record and whether the walk reached
/// the end without running out of bytes.
pub open spec fn apply_extra(f: FileModel, b: Seq<u8>, p: int) -> (FileModel, bool)
    decreases b.len() - p,
{
    if p < 0 || p >= b.len() {
        (f, true)
    } else if p + 4 > b.len() {
        (f, false)
    } else {
        let kind = u16_le(b, p);
        let len = u16_le(b, p + 2) as int;
        let step = if kind == 0x0001 {
            apply_zip64(f, b, p + 4)
        } else if kind == 0x7075 {
            apply_unicode_path(f, b, p + 4, len)
        } else {
            (f, true)
        };
        if !step.1 {
            step
        } else if p + 4 + len >= b.len() {
            (step.0, true)
        } else {
            apply_extra(step.0, b, p + 4 + len)
        }
    }
}

/// The records of `b` from `p` are well formed: each header (kind, length)
/// and its body lie within `b`, each Unicode path record holds at least its
/// version and CRC, and the last record ends where `b` does.
pub open spec fn records_from(b: Seq<u8>, p: int) -> bool
    decreases b.len() - p,
{
    if p < 0 || p > b.len() {
        false
    } else if p == b.len() {
        true
    } else if p + 4 > b.len() || p + 4 + u16_le(b, p + 2) > b.len() {
        false
    } else {
        (u16_le(b, p) == 0x7075 ==> u16_le(b, p + 2) >= 5) && records_from(
            b,
            p + 4 + u16_le(b, p + 2),
        )
    }
}

/// No record of `b` from `p` on is a ZIP64 record.
pub open spec fn no_zip64_from(b: Seq<u8>, p: int) -> bool
    decreases b.len() - p,
{
    if p < 0 || p >= b.len() || p + 4 > b.len() || p + 4 + u16_le(b, p + 2) > b.len() {
        true
    } else {
        u16_le(b, p) != 0x0001 && no_zip64_from(b, p + 4 + u16_le(b, p + 2))
    }
}

/// Walking the records of `b` from `p`, the one at `q` is the only ZIP64
/// record.
pub open spec fn zip64_only_at(b: Seq<u8>, p: int, q: int) -> bool
    decreases b.len() - p,
{
    if p < 0 || p >= b.len() || p + 4 > b.len() || p + 4 + u16_le(b, p + 2) > b.len() {
        false
    } else if p == q {
        u16_le(b, p) == 0x0001 && no_zip64_from(b, p + 4 + u16_le(b, p + 2))
    } else {
        p < q && u16_le(b, p) != 0x0001 && zip64_only_at(b, p + 4 + u16_le(b, p + 2), q)
    }
}

/// The sizes and local header offset of `f`.
pub open spec fn size_fields(f: FileModel) -> (u64, u64, u64) {
    (f.uncompressed_size, f.compressed_size, f.header_start)
}

/// How many of the sizes and local header offset of `f` hold the sentinel.
pub open spec fn sentinel_count(f: FileModel) -> int {
    (if f.uncompressed_size == 0xFFFFFFFF { 1int } else { 0 }) + (if f.compressed_size
        == 0xFFFFFFFF { 1int } else { 0 }) + (if f.header_start == 0xFFFFFFFF { 1int } else { 0 })
}

/// Records other than ZIP64 ones leave the sizes and offset alone, and a
/// well-formed walk over them ends without running out of bytes.
proof fn lemma_walk_keeps_sizes(g: FileModel, b: Seq<u8>, p: int)
    requires
        records_from(b, p),
        no_zip64_from(b, p),
    ensures
        apply_extra(g, b, p).1,
        size_fields(apply_extra(g, b, p).0) == size_fields(g),
    decreases b.len() - p,
{
    if p < b.len() {
        let len = u16_le(b, p + 2) as int;
        let step = if u16_le(b, p) == 0x7075 {
            apply_unicode_path(g, b, p + 4, len)
        } else {
            (g, true)
        };
        if p + 4 + len < b.len() {
            lemma_walk_keeps_sizes(step.0, b, p + 4 + len);
        }
    }
}

proof fn lemma_walk_promotes(g: FileModel, b: Seq<u8>, p: int, q: int)
    requires
        records_from(b, p),
        zip64_only_at(b, p, q),
        q + 4 + 8 * sentinel_count(g) <= q + 4 + u16_le(b, q + 2),
    ensures
        apply_extra(g, b, p).1,
        size_fields(apply_extra(g, b, p).0) == size_fields(apply_zip64(g, b, q + 4).0),
        q + 4 + u16_le(b, q + 2) <= b.len(),
    decreases b.len() - p,
{
    let len = u16_le(b, p + 2) as int;
    if p == q {
        let step = apply_zip64(g, b, p + 4);
        if p + 4 + len < b.len() {
            lemma_walk_keeps_sizes(step.0, b, p + 4 + len);
        }
    } else {
        let step = if u16_le(b, p) == 0x7075 {
            apply_unicode_path(g, b, p + 4, len)
        } else {
            (g, true)
        };
        lemma_walk_promotes(step.0, b, p + 4 + len, q);
    }
}

/// In a well-formed extra field whose only ZIP64 record stands at `q`, that
/// record supplies, in order, the 64-bit value of each field of `f` that
/// holds the 32-bit sentinel (uncompressed size, compressed size, local
/// header offset), provided its body holds them; the other fields keep their
/// values, and the walk ends without running out of bytes.
pub proof fn lemma_zip64_promotion(f: FileModel, b: Seq<u8>, q: int)
    requires
        records_from(b, 0),
        zip64_only_at(b, 0, q),
        8 * sentinel_count(f) <= u16_le(b, q + 2),
    ensures
        ({
            let g = apply_extra(f, b, 0).0;
            let at_u = q + 4;
            let at_c = if f.uncompressed_size == 0xFFFFFFFF { at_u + 8 } else { at_u };
            let at_h = if f.compressed_size == 0xFFFFFFFF { at_c + 8 } else { at_c };
            &&& apply_extra(f, b, 0).1
            &&& g.uncompressed_size == if f.uncompressed_size == 0xFFFFFFFF {
                u64_le(b, at_u)
            } else {
                f.uncompressed_size
            }
            &&& g.compressed_size == if f.compressed_size == 0xFFFFFFFF {
                u64_le(b, at_c)
            } else {
                f.compressed_size
            }
            &&& g.header_start == if f.header_start == 0xFFFFFFFF {
                u64_le(b, at_h)
            } else {
                f.header_start
            }
        }),
{
    lemma_walk_promotes(f, b, 0, q);
    let z = apply_zip64(f, b, q + 4);
    assert(z.1);
}

/// Applies the extra field `data` to `file`: ZIP64 sizes and offset, and the
/// Unicode path. Fails (with the fields read so far applied) where the
/// records run past the end of `data`.
pub fn parse_extra_field(file: &mut ZipFileData, data: &[u8]) -> (r: ZipResult<()>)
    ensures
        apply_extra(old(file)@, data@, 0) == (final(file)@, r is Ok),
        r is Err ==> r == Err::<(), ZipError>(eof_error()),
{
    let mut pos: usize = 0;
    while pos < data.len()
        invariant
            apply_extra(old(file)@, data@, 0) == apply_extra(file@, data@, pos as int),
        decreases data@.len() - pos,
    {
        if data.len() - pos < 4 {
            return Err(ZipError::Io(IoErrorKind::UnexpectedEof));
        }
        let kind = read_u16(data, pos)?;
        let len = read_u16(data, pos + 2)?;
        let body = pos + 4;
        if kind == 0x0001 {
            let mut p = body;
            if file.uncompressed_size == 0xFFFFFFFF {
                file.uncompressed_size = read_u64(data, p)?;
                p = p + 8;
            }
            if file.compressed_size == 0xFFFFFFFF {
                file.compressed_size = read_u64(data, p)?;
                p = p + 8;
            }
            if file.header_start == 0xFFFFFFFF {
                file.header_start = read_u64(data, p)?;
            }
        } else if kind == 0x7075 {
            if data.len() - body < 5 {
                return Err(ZipError::Io(IoErrorKind::UnexpectedEof));
            }
            let name_crc = read_u32(data, body + 1)?;
            if len >= 5 {
                if data.len() - body < len as usize {
                    return Err(ZipError::Io(IoErrorKind::UnexpectedEof));
                }
                let name = copy_range(data, body + 5, body + len as usize);
                if checksum(file.file_name_raw.as_slice()) == name_crc {
                    if let Some(text) = decode_strict(name.as_slice()) {
                        file.file_name = text;
                    }
                }
            }
        }
        if data.len() - body <= len as usize {
            return Ok(());
        }
        pos = body + len as usize;
    }
    Ok(())
}


/// Text stored as `raw`: UTF-8 (invalid sequences replaced) when the UTF-8
/// flag is set, code page 437 otherwise.
pub open spec fn decode_text(raw: Seq<u8>, is_utf8: bool) -> Seq<char> {
    if is_utf8 {
        utf8_lossy(raw)
    } else {
        cp437_decode(raw)
    }
}

/// Decodes stored text by the UTF-8 flag.
pub fn decode_name(raw: &[u8], is_utf8: bool) -> (r: String)
    ensures
        r@ == decode_text(raw@, is_utf8),
{
    if is_utf8 {
        decode_lossy(raw)
    } else {
        from_cp437(raw)
    }
}

/// Bit 0 of the general purpose flags: the entry is encrypted.
pub open spec fn flag_encrypted(flags: u16) -> bool {
    flags % 2 == 1
}

/// Bit 3 of the general purpose flags: sizes and CRC follow the data.
pub open spec fn flag_data_descriptor(flags: u16) -> bool {
    (flags / 8) % 2 == 1
}

/// Bit 11 of the general purpose flags: name and comment are UTF-8.
pub open spec fn flag_utf8(flags: u16) -> bool {
    (flags / 2048) % 2 == 1
}

/// Length of the name of the central header at `p`.
pub open spec fn central_name_len(s: Seq<u8>, p: int) -> int {
    u16_le(s, p + 28) as int
}

/// Length of the extra field of the central header at `p`.
pub open spec fn central_extra_len(s: Seq<u8>, p: int) -> int {
    u16_le(s, p + 30) as int
}

/// Length of the comment of the central header at `p`.
pub open spec fn central_comment_len(s: Seq<u8>, p: int) -> int {
    u16_le(s, p + 32) as int
}

/// Where the central header at `p` ends.
pub open spec fn central_header_end(s: Seq<u8>, p: int) -> int {
    p + 46 + central_name_len(s, p) + central_extra_len(s, p) + central_comment_len(s, p)
}

/// The extra field of the central header at `p`.
pub open spec fn central_extra(s: Seq<u8>, p: int) -> Seq<u8> {
    let start = p + 46 + central_name_len(s, p);
    s.subrange(start, start + central_extra_len(s, p))
}

/// The record that the fixed fields, name and comment of the central header
/// at `p` describe, before its extra field is applied.
pub open spec fn central_fields(s: Seq<u8>, p: int) -> FileModel {
    let version_made_by = u16_le(s, p + 4);
    let flags = u16_le(s, p + 8);
    let name_start = p + 46;
    let name_raw = s.subrange(name_start, name_start + central_name_len(s, p));
    let comment_start = name_start + central_name_len(s, p) + central_extra_len(s, p);
    let comment_raw = s.subrange(comment_start, comment_start + central_comment_len(s, p));
    FileModel {
        system: System::spec_from_u8((version_made_by / 256) as u8),
        version_made_by: (version_made_by % 256) as u8,
        encrypted: flag_encrypted(flags),
        using_data_descriptor: flag_data_descriptor(flags),
        compression_method: CompressionMethod::spec_from_u16(u16_le(s, p + 10)),
        last_modified_time: DateTime::spec_from_msdos(u16_le(s, p + 14), u16_le(s, p + 12)),
        crc32: u32_le(s, p + 16),
        compressed_size: u32_le(s, p + 20) as u64,
        uncompressed_size: u32_le(s, p + 24) as u64,
        file_name: decode_text(name_raw, flag_utf8(flags)),
        file_name_raw: name_raw,
        file_comment: decode_text(comment_raw, flag_utf8(flags)),
        header_start: u32_le(s, p + 42) as u64,
        central_header_start: p as u64,
        data_start: 0,
        external_attributes: u32_le(s, p + 38),
    }
}

/// A size or the local header offset of `f` still holds the 32-bit
/// sentinel that only a ZIP64 extra record may stand in for.
pub open spec fn has_sentinel(f: FileModel) -> bool {
    f.uncompressed_size == 0xFFFFFFFF || f.compressed_size == 0xFFFFFFFF || f.header_start
        == 0xFFFFFFFF
}

/// The entry that the central header at `p` describes, its local header
/// offset shifted by `archive_offset`.
#[verifier::opaque]
pub open spec fn parse_central(s: Seq<u8>, p: int, archive_offset: u64) -> Result<
    FileModel,
    ZipError,
> {
    if p + 4 > s.len() {
        Err(eof_error())
    } else if u32_le(s, p) != CENTRAL_DIRECTORY_HEADER_SIGNATURE {
        Err(ZipError::InvalidArchive("Invalid Central Directory header"))
    } else if p + 46 > s.len() || central_header_end(s, p) > s.len() {
        Err(eof_error())
    } else {
        let f = apply_extra(central_fields(s, p), central_extra(s, p), 0).0;
        if has_sentinel(f) {
            Err(ZipError::InvalidArchive("Missing ZIP64 extra field"))
        } else if f.header_start + archive_offset > u64::MAX {
            Err(ZipError::InvalidArchive("Invalid local header offset"))
        } else {
            Ok(FileModel { header_start: (f.header_start + archive_offset) as u64, ..f })
        }
    }
}

/// Decodes the central directory header at `p`.
/// Returns it with the offset where the header ends.
pub fn central_header_to_zip_file(s: &[u8], p: usize, archive_offset: u64) -> (r: ZipResult<
    (ZipFileData, usize),
>)
    ensures
        match parse_central(s@, p as int, archive_offset) {
            Ok(f) => r is Ok && r->Ok_0.0@ == f && r->Ok_0.1 == central_header_end(s@, p as int),
            Err(e) => r == Err::<(ZipFileData, usize), ZipError>(e),
        },
{
    reveal(parse_central);
    let n = s.len();
    if p > n || n - p < 4 {
        return Err(ZipError::Io(IoErrorKind::UnexpectedEof));
    }
    let signature = read_u32(s, p)?;
    if signature != CENTRAL_DIRECTORY_HEADER_SIGNATURE {
        return Err(ZipError::InvalidArchive("Invalid Central Directory header"));
    }
    if n - p < 46 {
        return Err(ZipError::Io(IoErrorKind::UnexpectedEof));
    }
    let version_made_by = read_u16(s, p + 4)?;
    let flags = read_u16(s, p + 8)?;
    let encrypted = flags % 2 == 1;
    let is_utf8 = (flags / 2048) % 2 == 1;
    let compression_method = read_u16(s, p + 10)?;
    let last_mod_time = read_u16(s, p + 12)?;
    let last_mod_date = read_u16(s, p + 14)?;
    let crc32 = read_u32(s, p + 16)?;
    let compressed_size = read_u32(s, p + 20)?;
    let uncompressed_size = read_u32(s, p + 24)?;
    let file_name_length = read_u16(s, p + 28)? as usize;
    let extra_field_length = read_u16(s, p + 30)? as usize;
    let file_comment_length = read_u16(s, p + 32)? as usize;
    let external_file_attributes = read_u32(s, p + 38)?;
    let offset = read_u32(s, p + 42)? as u64;
    if n - (p + 46) < file_name_length + extra_field_length + file_comment_length {
        return Err(ZipError::Io(IoErrorKind::UnexpectedEof));
    }
    let name_start = p + 46;
    let extra_start = name_start + file_name_length;
    let comment_start = extra_start + extra_field_length;
    let file_name_raw = copy_range(s, name_start, extra_start);
    let extra_field = copy_range(s, extra_start, comment_start);
    let file_comment_raw = copy_range(s, comment_start, comment_start + file_comment_length);
    let file_name = decode_name(file_name_raw.as_slice(), is_utf8);
    let file_comment = decode_name(file_comment_raw.as_slice(), is_utf8);
    let mut result = ZipFileData {
        system: System::from_u8((version_made_by / 256) as u8),
        version_made_by: (version_made_by % 256) as u8,
        encrypted,
        using_data_descriptor: (flags / 8) % 2 == 1,
        compression_method: CompressionMethod::from_u16(compression_method),
        last_modified_time: DateTime::from_msdos(last_mod_date, last_mod_time),
        crc32,
        compressed_size: compressed_size as u64,
        uncompressed_size: uncompressed_size as u64,
        file_name,
        file_name_raw,
        file_comment,
        header_start: offset,
        central_header_start: p as u64,
        data_start: 0,
        external_attributes: external_file_attributes,
    };
    assert(result@ == central_fields(s@, p as int));
    let _ = parse_extra_field(&mut result, extra_field.as_slice());
    if result.uncompressed_size == 0xFFFFFFFF || result.compressed_size == 0xFFFFFFFF
        || result.header_start == 0xFFFFFFFF {
        return Err(ZipError::InvalidArchive("Missing ZIP64 extra field"));
    }
    if result.header_start > u64::MAX - archive_offset {
        return Err(ZipError::InvalidArchive("Invalid local header offset"));
    }
    result.header_start = result.header_start + archive_offset;
    Ok((result, comment_start + file_comment_length))
}


/// Where the ZIP64 locator would stand: 20 bytes in front of an end record
/// whose comment runs to the end of `s`.
pub open spec fn zip64_locator_pos(s: Seq<u8>, cde: int) -> int {
    s.len() - (20 + 22 + eocd_comment_len(s, cde))
}

/// There is a ZIP64 locator in front of the end record at `cde`.
pub open spec fn has_zip64_locator(s: Seq<u8>, cde: int) -> bool {
    let loc = zip64_locator_pos(s, cde);
    loc >= 0 && u32_le(s, loc) == ZIP64_CENTRAL_DIRECTORY_END_LOCATOR_SIGNATURE
}

/// From the end record at `cde`: the number of bytes prepended to the
/// archive, where the central directory starts, and how many entries it has.
#[verifier::opaque]
pub open spec fn directory_counts(s: Seq<u8>, cde: int) -> Result<(u64, u64, int), ZipError> {
    let loc = zip64_locator_pos(s, cde);
    if !has_zip64_locator(s, cde) {
        let archive_offset = cde - u32_le(s, cde + 12) - u32_le(s, cde + 16);
        if archive_offset < 0 {
            Err(ZipError::InvalidArchive("Invalid central directory size or offset"))
        } else {
            Ok(
                (
                    archive_offset as u64,
                    (u32_le(s, cde + 16) + archive_offset) as u64,
                    u16_le(s, cde + 8) as int,
                ),
            )
        }
    } else if u16_le(s, cde + 4) as u32 != u32_le(s, loc + 4) {
        Err(ZipError::UnsupportedArchive("Support for multi-disk files is not implemented"))
    } else if cde < 60 {
        Err(ZipError::InvalidArchive("File cannot contain ZIP64 central directory end"))
    } else {
        let nominal = u64_le(s, loc + 8);
        match scan_eocd64(s, nominal as int, cde - 60) {
            Err(e) => Err(e),
            Ok(p) => if p + 56 > s.len() {
                Err(eof_error())
            } else if u32_le(s, p + 16) != u32_le(s, p + 20) {
                Err(ZipError::UnsupportedArchive("Support for multi-disk files is not implemented"))
            } else if u64_le(s, p + 48) + (p - nominal) > u64::MAX {
                Err(ZipError::InvalidArchive("Invalid central directory size or offset"))
            } else if u64_le(s, p + 32) > usize::MAX {
                Err(ZipError::InvalidArchive("Too many entries for this platform"))
            } else {
                Ok(
                    (
                        (p - nominal) as u64,
                        (u64_le(s, p + 48) + (p - nominal)) as u64,
                        u64_le(s, p + 32) as int,
                    ),
                )
            },
        }
    }
}

/// The `count` entries whose central headers follow each other from `p`.
pub open spec fn parse_entries(s: Seq<u8>, p: int, count: nat, archive_offset: u64) -> Result<
    Seq<FileModel>,
    ZipError,
>
    decreases count,
{
    if count == 0 {
        Ok(Seq::empty())
    } else {
        match parse_central(s, p, archive_offset) {
            Err(e) => Err(e),
            Ok(f) => match parse_entries(
                s,
                central_header_end(s, p),
                (count - 1) as nat,
                archive_offset,
            ) {
                Err(e) => Err(e),
                Ok(rest) => Ok(seq![f] + rest),
            },
        }
    }
}

/// What an archive held in `s` consists of: the bytes prepended to it, its
/// entries in central directory order, and its comment.
pub open spec fn parse_archive(s: Seq<u8>) -> Result<(u64, Seq<FileModel>, Seq<u8>), ZipError> {
    match find_eocd(s) {
        None => Err(ZipError::InvalidArchive("Could not find central directory end")),
        Some(cde) => if !eocd_fits(s, cde) {
            Err(eof_error())
        } else if u16_le(s, cde + 4) != u16_le(s, cde + 6) {
            Err(ZipError::UnsupportedArchive("Support for multi-disk files is not implemented"))
        } else {
            match directory_counts(s, cde) {
                Err(e) => Err(e),
                Ok((archive_offset, directory_start, count)) => if directory_start > s.len() {
                    Err(ZipError::InvalidArchive("Could not seek to start of central directory"))
                } else {
                    match parse_entries(s, directory_start as int, count as nat, archive_offset) {
                        Err(e) => Err(e),
                        Ok(files) => Ok(
                            (
                                archive_offset,
                                files,
                                s.subrange(cde + 22, cde + 22 + eocd_comment_len(s, cde)),
                            ),
                        ),
                    }
                },
            }
        },
    }
}

/// The models of the records in `v`.
pub open spec fn models(v: Seq<ZipFileData>) -> Seq<FileModel> {
    v.map_values(|f: ZipFileData| f@)
}

/// Adds `done` in front of the entries that `rest` holds.
pub open spec fn prepend(done: Seq<FileModel>, rest: Result<Seq<FileModel>, ZipError>) -> Result<
    Seq<FileModel>,
    ZipError,
> {
    match rest {
        Ok(r) => Ok(done + r),
        Err(e) => Err(e),
    }
}

/// `a` if it is the smaller.
pub open spec fn min_int(a: int, b: int) -> int {
    if a <= b {
        a
    } else {
        b
    }
}

/// From the local header that `f` points at: where the entry's data starts,
/// and its stored bytes, `compressed_size` of them or as many as `s` holds.
pub open spec fn local_window(s: Seq<u8>, f: FileModel) -> Result<(u64, Seq<u8>), ZipError> {
    let h = f.header_start as int;
    if h + 4 > s.len() {
        Err(eof_error())
    } else if u32_le(s, h) != LOCAL_FILE_HEADER_SIGNATURE {
        Err(ZipError::InvalidArchive("Invalid local file header"))
    } else if h + 30 > s.len() {
        Err(eof_error())
    } else {
        let data_start = h + 30 + u16_le(s, h + 26) + u16_le(s, h + 28);
        if data_start > u64::MAX {
            Err(ZipError::InvalidArchive("Invalid local file header"))
        } else {
            Ok(
                (
                    data_start as u64,
                    s.subrange(
                        min_int(data_start, s.len() as int),
                        min_int(data_start + f.compressed_size, s.len() as int),
                    ),
                ),
            )
        }
    }
}

/// `f` with its data start resolved from its local header, where that works.
pub open spec fn resolved(s: Seq<u8>, f: FileModel) -> FileModel {
    match local_window(s, f) {
        Ok((data_start, _)) => FileModel { data_start, ..f },
        Err(_) => f,
    }
}

/// Reads the local header of `data`, records where its data starts, and
/// returns the entry's stored bytes.
fn find_content(data: &mut ZipFileData, reader: &[u8]) -> (r: ZipResult<Vec<u8>>)
    ensures
        match local_window(reader@, old(data)@) {
            Ok((data_start, window)) => r is Ok && r->Ok_0@ == window && final(data)@ == (FileModel {
                data_start,
                ..old(data)@
            }),
            Err(e) => r == Err::<Vec<u8>, ZipError>(e) && final(data)@ == old(data)@,
        },
{
    let n = reader.len();
    if data.header_start > n as u64 || n - (data.header_start as usize) < 4 {
        return Err(ZipError::Io(IoErrorKind::UnexpectedEof));
    }
    let h = data.header_start as usize;
    let signature = read_u32(reader, h)?;
    if signature != LOCAL_FILE_HEADER_SIGNATURE {
        return Err(ZipError::InvalidArchive("Invalid local file header"));
    }
    if n - h < 30 {
        return Err(ZipError::Io(IoErrorKind::UnexpectedEof));
    }
    let file_name_length = read_u16(reader, h + 26)? as u64;
    let extra_field_length = read_u16(reader, h + 28)? as u64;
    if data.header_start > u64::MAX - 30 - file_name_length - extra_field_length {
        return Err(ZipError::InvalidArchive("Invalid local file header"));
    }
    let data_start = data.header_start + 30 + file_name_length + extra_field_length;
    data.data_start = data_start;
    let start: usize = if data_start >= n as u64 {
        n
    } else {
        data_start as usize
    };
    let end: usize = if data.compressed_size >= (n - start) as u64 {
        n
    } else {
        start + data.compressed_size as usize
    };
    Ok(copy_range(reader, start, end))
}

/// The stage that removes the encryption of an entry, if any.
pub enum CryptoReader {
    Plaintext(Vec<u8>),
    ZipCrypto(ZipCryptoReaderValid),
}

impl CryptoReader {
    /// The plain bytes that this stage yields.
    pub open spec fn plain(&self) -> Seq<u8> {
        match self {
            CryptoReader::Plaintext(v) => v@,
            CryptoReader::ZipCrypto(r) => r.plain(),
        }
    }

    /// The stored bytes under this stage.
    pub open spec fn stored(&self) -> Seq<u8> {
        match self {
            CryptoReader::Plaintext(v) => v@,
            CryptoReader::ZipCrypto(r) => r.file@,
        }
    }

    /// All the plain bytes.
    pub fn read_all(&self) -> (r: Vec<u8>)
        ensures
            r@ == self.plain(),
    {
        match self {
            CryptoReader::Plaintext(v) => v.clone(),
            CryptoReader::ZipCrypto(r) => r.decrypt_all(),
        }
    }

    /// Consumes this decoder, returning the underlying reader.
    pub fn into_inner(self) -> (r: Vec<u8>)
        ensures
            r@ == self.stored(),
    {
        match self {
            CryptoReader::Plaintext(r) => r,
            CryptoReader::ZipCrypto(r) => r.into_inner(),
        }
    }
}

/// The plain bytes of an encrypted entry stored as `window` under the
/// password `pw`: what follows the 12-byte header, decrypted.
pub open spec fn entry_plaintext(pw: Seq<u8>, window: Seq<u8>) -> Seq<u8> {
    decrypt_seq(
        keys_after(keys_from_password(pw), window.subrange(0, 12)),
        window.subrange(12, window.len() as int),
    )
}

/// The byte that the last decrypted header byte of an encrypted entry must
/// match: the high byte of the DOS modification time when the entry was
/// written with a data descriptor (its CRC was not known yet), the high byte
/// of the CRC-32 otherwise.
pub open spec fn check_byte_of(f: FileModel) -> u8 {
    if f.using_data_descriptor {
        ((f.last_modified_time.hour as int * 8 + f.last_modified_time.minute as int / 8) % 0x100) as u8
    } else {
        (f.crc32 / 0x100_0000) as u8
    }
}

/// Computes [`check_byte_of`].
pub fn password_check_byte(data: &ZipFileData) -> (r: u8)
    ensures
        r == check_byte_of(data@),
{
    if data.using_data_descriptor {
        let t = data.last_modified_time;
        ((t.hour as u32 * 8 + t.minute as u32 / 8) % 0x100) as u8
    } else {
        (data.crc32 / 0x100_0000) as u8
    }
}

/// Sets up the decryption stage: `Ok(Err(InvalidPassword))` when the
/// password fails the check.
pub fn make_crypto_reader(
    compression_method: CompressionMethod,
    check_byte: u8,
    reader: Vec<u8>,
    password: Option<&[u8]>,
) -> (r: ZipResult<Result<CryptoReader, InvalidPassword>>)
    ensures
        compression_method is Unsupported ==> r == Err::<Result<CryptoReader, InvalidPassword>, ZipError>(
            ZipError::UnsupportedArchive("Compression method not supported"),
        ),
        !(compression_method is Unsupported) ==> match password {
            None => r matches Ok(Ok(c)) && c == CryptoReader::Plaintext(reader),
            Some(pw) => if reader@.len() < 12 {
                r == Err::<Result<CryptoReader, InvalidPassword>, ZipError>(eof_error())
            } else if !password_matches(pw@, reader@, check_byte) {
                r == Ok::<Result<CryptoReader, InvalidPassword>, ZipError>(Err(InvalidPassword))
            } else {
                r matches Ok(Ok(c)) && c.plain() == entry_plaintext(pw@, reader@) && c.stored()
                    == reader@.subrange(12, reader@.len() as int)
            },
        },
{
    if let CompressionMethod::Unsupported(_) = compression_method {
        return unsupported_zip_error("Compression method not supported");
    }
    match password {
        None => Ok(Ok(CryptoReader::Plaintext(reader))),
        Some(password) => {
            let validated = ZipCryptoReader::new(reader, password).validate(check_byte)?;
            match validated {
                None => Ok(Err(InvalidPassword)),
                Some(r) => Ok(Ok(CryptoReader::ZipCrypto(r))),
            }
        },
    }
}

/// What the entry's bytes decompress to: `None` where the decompressor
/// refuses them or the method is not supported.
pub open spec fn expected_output(method: CompressionMethod, plain: Seq<u8>) -> Option<Seq<u8>> {
    match method {
        CompressionMethod::Stored => Some(plain),
        CompressionMethod::Deflated => inflated(plain),
        CompressionMethod::Bzip2 => bunzipped(plain),
        CompressionMethod::Unsupported(_) => None,
    }
}

/// The output `out` passes the CRC-32 check against `crc32`, or there is no
/// output to check.
pub open spec fn output_checks(out: Option<Seq<u8>>, crc32: u32) -> bool {
    out is Some ==> crc32_of(out->0) == crc32
}

/// Decompressed bytes served in order, with the CRC-32 checked at their end.
pub struct Crc32Reader {
    data: Vec<u8>,
    failure: Option<IoErrorKind>,
    pos: usize,
    check: u32,
}

impl Crc32Reader {
    pub closed spec fn wf(&self) -> bool {
        self.pos <= self.data@.len()
    }

    /// What is left to read, or `None` when decompression failed.
    pub closed spec fn pending(&self) -> Option<Seq<u8>> {
        if self.failure is Some {
            None
        } else {
            Some(self.data@.subrange(self.pos as int, self.data@.len() as int))
        }
    }

    /// The whole output matches the expected CRC-32.
    pub closed spec fn verifies(&self) -> bool {
        self.failure is Some || crc32_of(self.data@) == self.check
    }

    fn new(decoded: Result<Vec<u8>, std::io::Error>, check: u32) -> (r: Crc32Reader)
        ensures
            r.wf(),
            decoded is Ok ==> r.pending() == Some(decoded->Ok_0@),
            decoded is Err ==> r.pending() is None,
            r.verifies() == (decoded is Ok ==> crc32_of(decoded->Ok_0@) == check),
    {
        match decoded {
            Ok(data) => Crc32Reader { data, failure: None, pos: 0, check },
            Err(e) => Crc32Reader { data: Vec::new(), failure: Some(io_error_kind(&e)), pos: 0, check },
        }
    }

    fn read(&mut self, n: usize) -> (r: ZipResult<Vec<u8>>)
        requires
            old(self).wf(),
        ensures
            final(self).wf(),
            final(self).verifies() == old(self).verifies(),
            read_outcome(old(self).pending(), old(self).verifies(), n, r, final(self).pending()),
    {
        if let Some(kind) = self.failure {
            return Err(ZipError::Io(kind));
        }
        let len = self.data.len();
        if self.pos == len {
            if checksum(self.data.as_slice()) != self.check {
                return Err(ZipError::Io(IoErrorKind::InvalidData));
            }
            return Ok(Vec::new());
        }
        let k: usize = if n < len - self.pos {
            n
        } else {
            len - self.pos
        };
        let ghost p = self.data@.subrange(self.pos as int, len as int);
        let out = copy_range(self.data.as_slice(), self.pos, self.pos + k);
        assert(out@ == p.subrange(0, k as int));
        self.pos = self.pos + k;
        assert(self.data@.subrange(self.pos as int, len as int) == p.subrange(k as int, p.len() as int));
        Ok(out)
    }
}

/// What a read of at most `n` bytes gives, from a stream with `pending` left
/// to read and whose check passes when `verifies`: the next bytes; at the end,
/// nothing, or an `InvalidData` error when the check fails; an I/O error when
/// decompression failed.
pub open spec fn read_outcome(
    pending: Option<Seq<u8>>,
    verifies: bool,
    n: usize,
    r: ZipResult<Vec<u8>>,
    after: Option<Seq<u8>>,
) -> bool {
    match pending {
        None => r matches Err(ZipError::Io(_)) && after is None,
        Some(p) => if p.len() == 0 {
            if verifies {
                r is Ok && r->Ok_0@.len() == 0 && after == pending
            } else {
                r == Err::<Vec<u8>, ZipError>(ZipError::Io(IoErrorKind::InvalidData))
                    && after == pending
            }
        } else {
            let k = min_int(n as int, p.len() as int);
            r is Ok && r->Ok_0@ == p.subrange(0, k) && after == Some(p.subrange(k, p.len() as int))
        },
    }
}

/// Stored bytes served in order, with nothing checked.
pub struct RawReader {
    data: Vec<u8>,
    pos: usize,
}

impl RawReader {
    pub closed spec fn wf(&self) -> bool {
        self.pos <= self.data@.len()
    }

    /// What is left to read.
    pub closed spec fn pending(&self) -> Seq<u8> {
        self.data@.subrange(self.pos as int, self.data@.len() as int)
    }

    fn new(data: Vec<u8>) -> (r: RawReader)
        ensures
            r.wf(),
            r.pending() == data@,
    {
        let r = RawReader { data, pos: 0 };
        assert(r.pending() == r.data@);
        r
    }

    fn read(&mut self, n: usize) -> (r: ZipResult<Vec<u8>>)
        requires
            old(self).wf(),
        ensures
            final(self).wf(),
            read_outcome(Some(old(self).pending()), true, n, r, Some(final(self).pending())),
    {
        let len = self.data.len();
        let k: usize = if n < len - self.pos {
            n
        } else {
            len - self.pos
        };
        let ghost p = self.data@.subrange(self.pos as int, len as int);
        let out = copy_range(self.data.as_slice(), self.pos, self.pos + k);
        assert(out@ == p.subrange(0, k as int));
        self.pos = self.pos + k;
        assert(self.data@.subrange(self.pos as int, len as int) == p.subrange(k as int, p.len() as int));
        Ok(out)
    }
}

/// The stage that the reads of an entry go through.
pub enum ZipFileReader {
    NoReader,
    Raw(RawReader),
    Stored(Crc32Reader),
    Deflated(Crc32Reader),
    Bzip2(Crc32Reader),
}

impl ZipFileReader {
    pub open spec fn wf(&self) -> bool {
        match self {
            ZipFileReader::NoReader => true,
            ZipFileReader::Raw(r) => r.wf(),
            ZipFileReader::Stored(c) => c.wf(),
            ZipFileReader::Deflated(c) => c.wf(),
            ZipFileReader::Bzip2(c) => c.wf(),
        }
    }
}

impl ZipFileReader {
    /// What is left to read, or `None` when decompression failed.
    pub open spec fn pending(&self) -> Option<Seq<u8>> {
        match self {
            ZipFileReader::NoReader => None,
            ZipFileReader::Raw(r) => Some(r.pending()),
            ZipFileReader::Stored(c) => c.pending(),
            ZipFileReader::Deflated(c) => c.pending(),
            ZipFileReader::Bzip2(c) => c.pending(),
        }
    }

    /// The output passes its CRC-32 check (always so for raw reads).
    pub open spec fn verifies(&self) -> bool {
        match self {
            ZipFileReader::NoReader => true,
            ZipFileReader::Raw(_) => true,
            ZipFileReader::Stored(c) => c.verifies(),
            ZipFileReader::Deflated(c) => c.verifies(),
            ZipFileReader::Bzip2(c) => c.verifies(),
        }
    }

    /// Reads at most `n` bytes from the stage that is set up.
    pub fn read(&mut self, n: usize) -> (r: ZipResult<Vec<u8>>)
        requires
            old(self).wf(),
            !(*old(self) is NoReader),
        ensures
            final(self).wf(),
            !(*final(self) is NoReader),
            final(self).verifies() == old(self).verifies(),
            read_outcome(old(self).pending(), old(self).verifies(), n, r, final(self).pending()),
            old(self).pending() matches Some(p) ==> p.len() <= usize::MAX,
    {
        let _ = match &*self {
            ZipFileReader::Raw(r) => r.data.len(),
            ZipFileReader::Stored(c) => c.data.len(),
            ZipFileReader::Deflated(c) => c.data.len(),
            ZipFileReader::Bzip2(c) => c.data.len(),
            ZipFileReader::NoReader => 0,
        };
        match self {
            ZipFileReader::Raw(r) => r.read(n),
            ZipFileReader::Stored(c) => c.read(n),
            ZipFileReader::Deflated(c) => c.read(n),
            ZipFileReader::Bzip2(c) => c.read(n),
            ZipFileReader::NoReader => Err(ZipError::Io(IoErrorKind::Other)),
        }
    }
}

/// Builds the decompression and CRC-32 stages over the decryption stage.
fn make_reader(compression_method: CompressionMethod, crc32: u32, reader: CryptoReader) -> (r:
    ZipFileReader)
    requires
        !(compression_method is Unsupported),
    ensures
        r.wf(),
        match r {
            ZipFileReader::Stored(c) => compression_method is Stored,
            ZipFileReader::Deflated(c) => compression_method is Deflated,
            ZipFileReader::Bzip2(c) => compression_method is Bzip2,
            _ => false,
        },
        match r {
            ZipFileReader::Stored(c) | ZipFileReader::Deflated(c) | ZipFileReader::Bzip2(c) => {
                &&& c.pending() == expected_output(compression_method, reader.plain())
                &&& c.verifies() == output_checks(c.pending(), crc32)
            },
            _ => true,
        },
{
    let plain = reader.read_all();
    match compression_method {
        CompressionMethod::Stored => ZipFileReader::Stored(Crc32Reader::new(Ok(plain), crc32)),
        CompressionMethod::Deflated => ZipFileReader::Deflated(
            Crc32Reader::new(inflate(plain.as_slice()), crc32),
        ),
        _ => ZipFileReader::Bzip2(Crc32Reader::new(bunzip(plain.as_slice()), crc32)),
    }
}

/// A struct for reading a zip file
pub struct ZipFile {
    data: ZipFileData,
    crypto_reader: Option<CryptoReader>,
    reader: ZipFileReader,
}

impl ZipFile {
    /// The entry's record.
    pub closed spec fn model(&self) -> FileModel {
        self.data@
    }

    pub closed spec fn wf(&self) -> bool {
        &&& self.reader.wf()
        &&& self.reader is NoReader ==> (self.crypto_reader is Some && !(
        self.data.compression_method is Unsupported))
    }

    /// The bytes that reads will still yield, or `None` when decompression
    /// fails.
    pub closed spec fn pending(&self) -> Option<Seq<u8>> {
        match self.reader {
            ZipFileReader::NoReader => expected_output(
                self.data.compression_method,
                self.crypto_reader->0.plain(),
            ),
            _ => self.reader.pending(),
        }
    }

    /// The entry's output passes its CRC-32 check (always so for raw reads).
    pub closed spec fn verifies(&self) -> bool {
        match self.reader {
            ZipFileReader::NoReader => output_checks(self.pending(), self.data.crc32),
            _ => self.reader.verifies(),
        }
    }

    fn get_reader(&mut self)
        requires
            old(self).wf(),
        ensures
            final(self).wf(),
            !(final(self).reader is NoReader),
            final(self).pending() == old(self).pending(),
            final(self).verifies() == old(self).verifies(),
            final(self).data == old(self).data,
    {
        if let ZipFileReader::NoReader = self.reader {
            let crypto_reader = self.crypto_reader.take();
            match crypto_reader {
                Some(c) => {
                    self.reader = make_reader(self.data.compression_method, self.data.crc32, c);
                },
                None => {},
            }
        }
    }

    /// Reads at most `n` bytes of the entry's output. At its end the CRC-32 is
    /// checked: a mismatch fails with an `InvalidData` I/O error.
    pub fn read(&mut self, n: usize) -> (r: ZipResult<Vec<u8>>)
        requires
            old(self).wf(),
        ensures
            final(self).wf(),
            final(self).model() == old(self).model(),
            final(self).verifies() == old(self).verifies(),
            read_outcome(old(self).pending(), old(self).verifies(), n, r, final(self).pending()),
            old(self).pending() matches Some(p) ==> p.len() <= usize::MAX,
    {
        self.get_reader();
        self.reader.read(n)
    }

    /// Reads the rest of the entry's output and checks its CRC-32.
    pub fn read_to_end(&mut self) -> (r: ZipResult<Vec<u8>>)
        requires
            old(self).wf(),
        ensures
            final(self).wf(),
            final(self).model() == old(self).model(),
            match old(self).pending() {
                None => r matches Err(ZipError::Io(_)),
                Some(p) => if old(self).verifies() {
                    r is Ok && r->Ok_0@ == p
                } else {
                    r == Err::<Vec<u8>, ZipError>(ZipError::Io(IoErrorKind::InvalidData))
                },
            },
    {
        let ghost pending = self.pending();
        let first = self.read(usize::MAX)?;
        if first.len() == 0 {
            return Ok(first);
        }
        proof {
            let p = pending->0;
            assert(p.subrange(0, p.len() as int) == p);
        }
        let _ = self.read(usize::MAX)?;
        Ok(first)
    }

    /// Get the version of the file
    pub fn version_made_by(&self) -> (r: (u8, u8))
        ensures
            r.0 == self.model().version_made_by / 10,
            r.1 == self.model().version_made_by % 10,
    {
        (self.data.version_made_by / 10, self.data.version_made_by % 10)
    }

    /// Get the name of the file. It may be absolute or climb out of the
    /// current directory: see [`ZipFile::enclosed_name`].
    pub fn name(&self) -> (r: &str)
        ensures
            r@ == self.model().file_name,
    {
        self.data.file_name.as_str()
    }

    /// Get the name of the file, in the raw (internal) byte representation.
    pub fn name_raw(&self) -> (r: &[u8])
        ensures
            r@ == self.model().file_name_raw,
    {
        self.data.file_name_raw.as_slice()
    }

    /// Rewrite the path, ignoring any path components with special meaning:
    /// the name is cut at its first NUL, absolute paths are made relative and
    /// parent references are dropped. `foo/../bar` becomes `foo/bar`, so
    /// [`ZipFile::enclosed_name`] is the better option in most cases.
    pub fn mangled_name(&self) -> (r: String)
        ensures
            r@ == mangled(self.model().file_name),
    {
        let chars = chars_of(self.data.file_name.as_str());
        mangle(chars.as_slice())
    }

    /// The same as [`ZipFile::mangled_name`].
    pub fn sanitized_name(&self) -> (r: String)
        ensures
            r@ == mangled(self.model().file_name),
    {
        self.mangled_name()
    }

    /// The name, where it is safe to use as a relative path: it holds no NUL,
    /// is not absolute, and never climbs above its start (`foo/../bar` is
    /// fine, `foo/../../bar` is not).
    pub fn enclosed_name(&self) -> (r: Option<&str>)
        ensures
            r is Some <==> is_enclosed(self.model().file_name),
            r matches Some(p) ==> p@ == self.model().file_name,
    {
        let chars = chars_of(self.data.file_name.as_str());
        if enclosed(chars.as_slice()) {
            Some(self.data.file_name.as_str())
        } else {
            None
        }
    }

    /// Returns whether the file is actually a directory
    pub fn is_dir(&self) -> (r: bool)
        ensures
            r == names_dir(self.model().file_name),
    {
        let chars = chars_of(self.data.file_name.as_str());
        let n = chars.len();
        n > 0 && (chars[n - 1] == '/' || chars[n - 1] == '\\')
    }

    /// Returns whether the file is a regular file
    pub fn is_file(&self) -> (r: bool)
        ensures
            r == !names_dir(self.model().file_name),
    {
        !self.is_dir()
    }

    /// Get unix mode for the file
    pub fn unix_mode(&self) -> (r: Option<u32>)
        ensures
            r == unix_mode_of(self.model().system, self.model().external_attributes),
    {
        let attrs = self.data.external_attributes;
        if attrs == 0 {
            return None;
        }
        match self.data.system {
            System::Unix => Some(attrs / 0x1_0000),
            System::Dos => {
                let mut mode: u32 = if (attrs / 0x10) % 2 == 1 {
                    S_IFDIR | 0o0775
                } else {
                    S_IFREG | 0o0664
                };
                if attrs % 2 == 1 {
                    mode = mode & 0o0555;
                }
                Some(mode)
            },
            System::Other(_) => None,
        }
    }

    /// Get the comment of the file
    pub fn comment(&self) -> (r: &str)
        ensures
            r@ == self.model().file_comment,
    {
        self.data.file_comment.as_str()
    }

    /// Get the compression method used to store the file
    pub fn compression(&self) -> (r: CompressionMethod)
        ensures
            r == self.model().compression_method,
    {
        self.data.compression_method
    }

    /// Get the size of the file in the archive
    pub fn compressed_size(&self) -> (r: u64)
        ensures
            r == self.model().compressed_size,
    {
        self.data.compressed_size
    }

    /// Get the size of the file when uncompressed
    pub fn size(&self) -> (r: u64)
        ensures
            r == self.model().uncompressed_size,
    {
        self.data.uncompressed_size
    }

    /// Get the time the file was last modified
    pub fn last_modified(&self) -> (r: DateTime)
        ensures
            r == self.model().last_modified_time,
    {
        self.data.last_modified_time
    }

    /// Get the CRC32 hash of the uncompressed contents
    pub fn crc32(&self) -> (r: u32)
        ensures
            r == self.model().crc32,
    {
        self.data.crc32
    }

    /// Get the starting offset of the data of the compressed file
    pub fn data_start(&self) -> (r: u64)
        ensures
            r == self.model().data_start,
    {
        self.data.data_start
    }

    /// Get the starting offset of the zip header for this file
    pub fn header_start(&self) -> (r: u64)
        ensures
            r == self.model().header_start,
    {
        self.data.header_start
    }

    /// Get the starting offset of the zip header in the central directory for this file
    pub fn central_header_start(&self) -> (r: u64)
        ensures
            r == self.model().central_header_start,
    {
        self.data.central_header_start
    }
}

/// File type bits of a directory in a Unix mode.
pub const S_IFDIR: u32 = 0o0040000;
/// File type bits of a regular file in a Unix mode.
pub const S_IFREG: u32 = 0o0100000;

/// The Unix mode that the attributes `attrs`, written on `system`, give: the
/// high 16 bits on Unix; on DOS a directory or a file mode from the
/// directory bit, without write permission when the read-only bit is set.
pub open spec fn unix_mode_of(system: System, attrs: u32) -> Option<u32> {
    if attrs == 0 {
        None
    } else {
        match system {
            System::Unix => Some(attrs / 0x1_0000),
            System::Dos => {
                let mode = if (attrs / 0x10) % 2 == 1 {
                    S_IFDIR | 0o0775
                } else {
                    S_IFREG | 0o0664
                };
                Some(if attrs % 2 == 1 { mode & 0o0555 } else { mode })
            },
            System::Other(_) => None,
        }
    }
}

/// The name ends in a slash or a backslash: the entry is a directory.
pub open spec fn names_dir(name: Seq<char>) -> bool {
    name.len() > 0 && (name.last() == '/' || name.last() == '\\')
}

/// The index of the last entry of `files[..n]` named `name`.
pub open spec fn find_last(files: Seq<FileModel>, name: Seq<char>, n: int) -> Option<int>
    decreases n,
{
    if n <= 0 {
        None
    } else if files[n - 1].file_name == name {
        Some(n - 1)
    } else {
        find_last(files, name, n - 1)
    }
}

/// The entry that [`find_last`] finds lies in `files[..n]`.
pub proof fn lemma_find_last_range(files: Seq<FileModel>, name: Seq<char>, n: int)
    ensures
        find_last(files, name, n) matches Some(i) ==> 0 <= i < n,
    decreases n,
{
    if n > 0 {
        lemma_find_last_range(files, name, n - 1);
    }
}

/// The index that `name` stands for in `files`: the last entry of that name.
pub open spec fn name_index(files: Seq<FileModel>, name: Seq<char>) -> Option<int> {
    find_last(files, name, files.len() as int)
}

/// The names of `files[..n]`, each once, in the order of the last entry
/// of each name.
pub open spec fn listed_names(files: Seq<FileModel>, n: int) -> Seq<Seq<char>>
    decreases n,
{
    if n <= 0 {
        Seq::empty()
    } else {
        let rest = listed_names(files, n - 1);
        if name_index(files, files[n - 1].file_name) == Some(n - 1) {
            rest.push(files[n - 1].file_name)
        } else {
            rest
        }
    }
}

/// What opening `f` yields: its plain (decrypted) stored bytes, `None` for a
/// wrong password, or the error. A password given for an entry that is not
/// encrypted is ignored.
pub open spec fn open_outcome(s: Seq<u8>, f: FileModel, password: Option<Seq<u8>>) -> Result<
    Option<Seq<u8>>,
    ZipError,
> {
    if f.encrypted && password is None {
        Err(ZipError::UnsupportedArchive("Password required to decrypt file"))
    } else {
        match local_window(s, f) {
            Err(e) => Err(e),
            Ok((_, window)) => if f.compression_method is Unsupported {
                Err(ZipError::UnsupportedArchive("Compression method not supported"))
            } else if !f.encrypted {
                Ok(Some(window))
            } else if window.len() < 12 {
                Err(eof_error())
            } else if !password_matches(password->0, window, check_byte_of(f)) {
                Ok(None)
            } else {
                Ok(Some(entry_plaintext(password->0, window)))
            },
        }
    }
}

/// Opening an entry only records where its data starts, which opening does
/// not read: whatever an open returned (a wrong password among the
/// outcomes), opening the same entry again yields what it would have
/// yielded before, and the record stays as it is.
pub proof fn lemma_reopen_unchanged(s: Seq<u8>, f: FileModel, password: Option<Seq<u8>>)
    ensures
        open_outcome(s, resolved(s, f), password) == open_outcome(s, f, password),
        resolved(s, resolved(s, f)) == resolved(s, f),
{
}

/// `z` reads the entry `f` whose plain stored bytes are `plain`.
pub open spec fn opened_as(z: ZipFile, f: FileModel, plain: Seq<u8>) -> bool {
    &&& z.wf()
    &&& z.model() == f
    &&& z.pending() == expected_output(f.compression_method, plain)
    &&& z.verifies() == output_checks(z.pending(), f.crc32)
}

/// How opening entry `i` of `files` (with an optional password) over the
/// source `s` went: `FileNotFound` past the end; otherwise the outcome that
/// [`open_outcome`] gives, and the entry's data start resolved when its local
/// header was read.
pub open spec fn opening(
    s: Seq<u8>,
    files: Seq<FileModel>,
    i: int,
    password: Option<Seq<u8>>,
    r: ZipResult<Result<ZipFile, InvalidPassword>>,
    after: Seq<FileModel>,
) -> bool {
    if i < 0 || i >= files.len() {
        r == Err::<Result<ZipFile, InvalidPassword>, ZipError>(ZipError::FileNotFound) && after
            == files
    } else {
        let f = files[i];
        &&& if f.encrypted && password is None {
            after == files
        } else {
            after == files.update(i, resolved(s, f))
        }
        &&& match open_outcome(s, f, password) {
            Err(e) => (r matches Err(x) && x == e),
            Ok(None) => r == Ok::<Result<ZipFile, InvalidPassword>, ZipError>(Err(InvalidPassword)),
            Ok(Some(plain)) => r matches Ok(Ok(z)) && opened_as(z, resolved(s, f), plain),
        }
    }
}

/// What extracting one entry writes: a directory, or a file with its
/// contents, at a path relative to the destination, with its Unix mode if
/// the entry records one.
pub struct ExtractStep {
    pub path: String,
    pub is_dir: bool,
    pub contents: Vec<u8>,
    pub mode: Option<u32>,
}

/// The name ends in a slash: extraction makes a directory of it.
pub open spec fn extracts_as_dir(name: Seq<char>) -> bool {
    name.len() > 0 && name.last() == '/'
}

/// ZIP archive reader over the bytes of an archive held in memory.
#[derive(Clone, Debug)]
pub struct ZipArchive {
    reader: Vec<u8>,
    files: Vec<ZipFileData>,
    offset: u64,
    comment: Vec<u8>,
}

impl ZipArchive {
    /// The bytes of the archive.
    pub closed spec fn source(&self) -> Seq<u8> {
        self.reader@
    }

    /// The entries, in central directory order.
    pub closed spec fn entries(&self) -> Seq<FileModel> {
        models(self.files@)
    }

    /// The number of bytes in front of the archive proper.
    pub closed spec fn spec_offset(&self) -> u64 {
        self.offset
    }

    /// The archive comment.
    pub closed spec fn spec_comment(&self) -> Seq<u8> {
        self.comment@
    }

    /// Get the directory start offset and number of files.
    fn get_directory_counts(reader: &[u8], footer: &CentralDirectoryEnd, cde_start_pos: u64) -> (r:
        ZipResult<(u64, u64, usize)>)
        requires
            eocd_fits(reader@, cde_start_pos as int),
            footer.decoded_from(reader@, cde_start_pos as int),
        ensures
            match directory_counts(reader@, cde_start_pos as int) {
                Ok(t) => r is Ok && r->Ok_0.0 == t.0 && r->Ok_0.1 == t.1 && r->Ok_0.2 == t.2,
                Err(e) => (r matches Err(x) && x == e),
            },
    {
        reveal(directory_counts);
        let n = reader.len();
        let comment_len = footer.zip_file_comment.len();
        let mut zip64locator: Option<Zip64CentralDirectoryEndLocator> = None;
        if n >= 42 + comment_len {
            match Zip64CentralDirectoryEndLocator::parse(reader, n - (42 + comment_len)) {
                Ok(loc) => {
                    zip64locator = Some(loc);
                },
                Err(ZipError::InvalidArchive(_)) => {},
                Err(e) => {
                    return Err(e);
                },
            }
        }
        match zip64locator {
            None => {
                let cd_size = footer.central_directory_size as u64;
                let cd_offset = footer.central_directory_offset as u64;
                if cde_start_pos < cd_size || cde_start_pos - cd_size < cd_offset {
                    return Err(ZipError::InvalidArchive("Invalid central directory size or offset"));
                }
                let archive_offset = cde_start_pos - cd_size - cd_offset;
                let directory_start = cd_offset + archive_offset;
                Ok((archive_offset, directory_start, footer.number_of_files_on_this_disk as usize))
            },
            Some(locator64) => {
                if footer.disk_number as u32 != locator64.disk_with_central_directory {
                    return Err(
                        ZipError::UnsupportedArchive(
                            "Support for multi-disk files is not implemented",
                        ),
                    );
                }
                if cde_start_pos < 60 {
                    return Err(
                        ZipError::InvalidArchive("File cannot contain ZIP64 central directory end"),
                    );
                }
                let search_upper_bound = cde_start_pos - 60;
                let (footer64, archive_offset) = Zip64CentralDirectoryEnd::find_and_parse(
                    reader,
                    locator64.end_of_central_directory_offset,
                    search_upper_bound,
                )?;
                if footer64.disk_number != footer64.disk_with_central_directory {
                    return Err(
                        ZipError::UnsupportedArchive(
                            "Support for multi-disk files is not implemented",
                        ),
                    );
                }
                if footer64.central_directory_offset > u64::MAX - archive_offset {
                    return Err(ZipError::InvalidArchive("Invalid central directory size or offset"));
                }
                let directory_start = footer64.central_directory_offset + archive_offset;
                if footer64.number_of_files > usize::MAX as u64 {
                    return Err(ZipError::InvalidArchive("Too many entries for this platform"));
                }
                Ok((archive_offset, directory_start, footer64.number_of_files as usize))
            },
        }
    }

    /// Read a ZIP archive, collecting the files it contains. This uses the
    /// central directory record and ignores local file headers.
    pub fn new(reader: Vec<u8>) -> (r: ZipResult<ZipArchive>)
        ensures
            match parse_archive(reader@) {
                Ok((offset, files, comment)) => {
                    &&& r is Ok
                    &&& r->Ok_0.source() == reader@
                    &&& r->Ok_0.spec_offset() == offset
                    &&& r->Ok_0.entries() == files
                    &&& r->Ok_0.spec_comment() == comment
                },
                Err(e) => (r matches Err(x) && x == e),
            },
    {
        let (footer, cde_start_pos) = CentralDirectoryEnd::find_and_parse(reader.as_slice())?;
        if footer.disk_number != footer.disk_with_central_directory {
            return Err(
                ZipError::UnsupportedArchive("Support for multi-disk files is not implemented"),
            );
        }
        let (archive_offset, directory_start, number_of_files) = ZipArchive::get_directory_counts(
            reader.as_slice(),
            &footer,
            cde_start_pos,
        )?;
        if directory_start > reader.len() as u64 {
            return Err(ZipError::InvalidArchive("Could not seek to start of central directory"));
        }
        let ghost s = reader@;
        let ghost start = directory_start as int;
        let ghost cde = cde_start_pos as int;
        assert(find_eocd(s) == Some(cde));
        assert(directory_counts(s, cde) == Ok::<(u64, u64, int), ZipError>(
            (archive_offset, directory_start, number_of_files as int),
        ));
        assert(parse_archive(s) == match parse_entries(s, start, number_of_files as nat, archive_offset) {
            Err(e) => Err(e),
            Ok(files) => Ok((archive_offset, files, footer.zip_file_comment@)),
        });
        let mut files: Vec<ZipFileData> = Vec::new();
        let mut pos: usize = directory_start as usize;
        let mut i: usize = 0;
        while i < number_of_files
            invariant
                i <= number_of_files,
                s == reader@,
                parse_archive(s) == match parse_entries(s, start, number_of_files as nat, archive_offset) {
                    Err(e) => Err(e),
                    Ok(files) => Ok((archive_offset, files, footer.zip_file_comment@)),
                },
                parse_entries(s, start, number_of_files as nat, archive_offset) == prepend(
                    models(files@),
                    parse_entries(s, pos as int, (number_of_files - i) as nat, archive_offset),
                ),
            decreases number_of_files - i,
        {
            let (file, next) = match central_header_to_zip_file(reader.as_slice(), pos, archive_offset) {
                Ok(t) => t,
                Err(e) => {
                    assert(parse_entries(s, pos as int, (number_of_files - i) as nat, archive_offset)
                        == Err::<Seq<FileModel>, ZipError>(e));
                    return Err(e);
                },
            };
            let ghost rest = parse_entries(
                s,
                next as int,
                (number_of_files - i - 1) as nat,
                archive_offset,
            );
            proof {
                assert(models(files@.push(file)) == models(files@).push(file@));
                if rest is Ok {
                    assert(models(files@.push(file)) + rest->Ok_0 == models(files@) + (seq![file@]
                        + rest->Ok_0));
                }
            }
            files.push(file);
            pos = next;
            i = i + 1;
        }
        proof {
            assert(models(files@) + Seq::<FileModel>::empty() == models(files@));
        }
        Ok(ZipArchive {
            reader,
            files,
            offset: archive_offset,
            comment: footer.zip_file_comment,
        })
    }

    /// Number of files contained in this zip.
    pub fn len(&self) -> (r: usize)
        ensures
            r == self.entries().len(),
    {
        self.files.len()
    }

    /// Whether this zip archive contains no files
    pub fn is_empty(&self) -> (r: bool)
        ensures
            r == (self.entries().len() == 0),
    {
        self.len() == 0
    }

    /// The offset from the beginning of the source at which the archive
    /// begins: the size of the data prepended to it.
    pub fn offset(&self) -> (r: u64)
        ensures
            r == self.spec_offset(),
    {
        self.offset
    }

    /// Get the comment of the zip archive.
    pub fn comment(&self) -> (r: &[u8])
        ensures
            r@ == self.spec_comment(),
    {
        self.comment.as_slice()
    }

    /// The names of the entries, each once; where several entries share a
    /// name, the last of them stands for it.
    pub fn file_names(&self) -> (r: Vec<String>)
        ensures
            r@.map_values(|n: String| n@) == listed_names(self.entries(), self.entries().len() as int),
    {
        let n = self.files.len();
        let mut r: Vec<String> = Vec::new();
        let mut i: usize = 0;
        while i < n
            invariant
                i <= n == self.files@.len(),
                r@.map_values(|n: String| n@) == listed_names(self.entries(), i as int),
            decreases n - i,
        {
            let ghost files = self.entries();
            let mut last = true;
            let mut j: usize = n;
            while j > i + 1
                invariant
                    i + 1 <= j <= n == files.len(),
                    files == self.entries(),
                    find_last(files, files[i as int].file_name, n as int) == if last {
                        find_last(files, files[i as int].file_name, j as int)
                    } else {
                        find_last(files, files[i as int].file_name, n as int)
                    },
                    !last ==> find_last(files, files[i as int].file_name, n as int) != Some(i as int),
                decreases j,
            {
                if last && self.files[j - 1].file_name == self.files[i].file_name {
                    assert(find_last(files, files[i as int].file_name, j as int) == Some(j - 1));
                    last = false;
                }
                j = j - 1;
            }
            if last {
                assert(find_last(files, files[i as int].file_name, i + 1) == Some(i as int));
                r.push(self.files[i].file_name.clone());
            }
            proof {
                assert(r@.map_values(|n: String| n@) =~= listed_names(self.entries(), i + 1));
            }
            i = i + 1;
        }
        r
    }

    /// Unwrap and return the bytes of the archive.
    pub fn into_inner(self) -> (r: Vec<u8>)
        ensures
            r@ == self.source(),
    {
        self.reader
    }

    fn by_index_with_optional_password(&mut self, file_number: usize, password: Option<&[u8]>) -> (r:
        ZipResult<Result<ZipFile, InvalidPassword>>)
        ensures
            final(self).source() == old(self).source(),
            final(self).spec_offset() == old(self).spec_offset(),
            final(self).spec_comment() == old(self).spec_comment(),
            opening(old(self).source(), old(self).entries(), file_number as int, match password {
                Some(p) => Some(p@),
                None => None,
            }, r, final(self).entries()),
    {
        if file_number >= self.files.len() {
            return Err(ZipError::FileNotFound);
        }
        let mut data = self.files[file_number].duplicate();
        let password = match (password, data.encrypted) {
            (None, true) => {
                return Err(ZipError::UnsupportedArchive("Password required to decrypt file"));
            },
            (Some(_), false) => None,
            (p, _) => p,
        };
        let limit_reader = find_content(&mut data, self.reader.as_slice());
        let ghost before = self.entries();
        let stored = data.duplicate();
        proof {
            assert(models(self.files@.update(file_number as int, stored)) =~= before.update(
                file_number as int,
                data@,
            ));
            assert(before.update(file_number as int, before[file_number as int]) =~= before);
        }
        self.files.set(file_number, stored);
        let limit_reader = limit_reader?;
        match make_crypto_reader(data.compression_method, password_check_byte(&data), limit_reader, password) {
            Ok(Ok(crypto_reader)) => Ok(
                Ok(ZipFile { crypto_reader: Some(crypto_reader), reader: ZipFileReader::NoReader, data }),
            ),
            Err(e) => Err(e),
            Ok(Err(e)) => Ok(Err(e)),
        }
    }

    /// Get a contained file by index, decrypt with given password
    pub fn by_index_decrypt(&mut self, file_number: usize, password: &[u8]) -> (r: ZipResult<
        Result<ZipFile, InvalidPassword>,
    >)
        ensures
            final(self).source() == old(self).source(),
            final(self).spec_offset() == old(self).spec_offset(),
            final(self).spec_comment() == old(self).spec_comment(),
            opening(old(self).source(), old(self).entries(), file_number as int, Some(password@), r, final(self).entries()),
    {
        self.by_index_with_optional_password(file_number, Some(password))
    }

    /// Get a contained file by index
    pub fn by_index(&mut self, file_number: usize) -> (r: ZipResult<ZipFile>)
        ensures
            final(self).source() == old(self).source(),
            final(self).spec_offset() == old(self).spec_offset(),
            final(self).spec_comment() == old(self).spec_comment(),
            opening(old(self).source(), old(self).entries(), file_number as int, None, match r {
                Ok(z) => Ok(Ok(z)),
                Err(e) => Err(e),
            }, final(self).entries()),
    {
        match self.by_index_with_optional_password(file_number, None) {
            Ok(Ok(z)) => Ok(z),
            Ok(Err(_)) => Err(ZipError::Io(IoErrorKind::Other)),
            Err(e) => Err(e),
        }
    }

    fn name_lookup(&self, name: &str) -> (r: Option<usize>)
        ensures
            match name_index(self.entries(), name@) {
                Some(i) => r == Some(i as usize),
                None => r is None,
            },
    {
        let target = name.to_string();
        let mut j: usize = self.files.len();
        while j > 0
            invariant
                j <= self.files@.len(),
                target@ == name@,
                name_index(self.entries(), name@) == find_last(self.entries(), name@, j as int),
            decreases j,
        {
            proof {
                lemma_find_last_range(self.entries(), name@, j as int);
            }
            if self.files[j - 1].file_name == target {
                return Some(j - 1);
            }
            j = j - 1;
        }
        None
    }

    fn by_name_with_optional_password(&mut self, name: &str, password: Option<&[u8]>) -> (r: ZipResult<
        Result<ZipFile, InvalidPassword>,
    >)
        ensures
            final(self).source() == old(self).source(),
            final(self).spec_offset() == old(self).spec_offset(),
            final(self).spec_comment() == old(self).spec_comment(),
            match name_index(old(self).entries(), name@) {
                None => r == Err::<Result<ZipFile, InvalidPassword>, ZipError>(ZipError::FileNotFound)
                    && final(self).entries() == old(self).entries(),
                Some(i) => opening(old(self).source(), old(self).entries(), i, match password {
                    Some(p) => Some(p@),
                    None => None,
                }, r, final(self).entries()),
            },
    {
        let count = self.files.len();
        proof {
            lemma_find_last_range(self.entries(), name@, self.entries().len() as int);
            assert(self.entries().len() == count);
        }
        let index = match self.name_lookup(name) {
            Some(index) => index,
            None => {
                return Err(ZipError::FileNotFound);
            },
        };
        self.by_index_with_optional_password(index, password)
    }

    /// Search for a file entry by name, decrypt with given password
    pub fn by_name_decrypt(&mut self, name: &str, password: &[u8]) -> (r: ZipResult<
        Result<ZipFile, InvalidPassword>,
    >)
        ensures
            final(self).source() == old(self).source(),
            final(self).spec_offset() == old(self).spec_offset(),
            final(self).spec_comment() == old(self).spec_comment(),
            match name_index(old(self).entries(), name@) {
                None => r == Err::<Result<ZipFile, InvalidPassword>, ZipError>(ZipError::FileNotFound)
                    && final(self).entries() == old(self).entries(),
                Some(i) => opening(old(self).source(), old(self).entries(), i, Some(password@), r, final(self).entries()),
            },
    {
        self.by_name_with_optional_password(name, Some(password))
    }

    /// Search for a file entry by name
    pub fn by_name(&mut self, name: &str) -> (r: ZipResult<ZipFile>)
        ensures
            final(self).source() == old(self).source(),
            final(self).spec_offset() == old(self).spec_offset(),
            final(self).spec_comment() == old(self).spec_comment(),
            match name_index(old(self).entries(), name@) {
                None => (r matches Err(ZipError::FileNotFound)) && final(self).entries() == old(self).entries(),
                Some(i) => opening(old(self).source(), old(self).entries(), i, None, match r {
                    Ok(z) => Ok(Ok(z)),
                    Err(e) => Err(e),
                }, final(self).entries()),
            },
    {
        match self.by_name_with_optional_password(name, None) {
            Ok(Ok(z)) => Ok(z),
            Ok(Err(_)) => Err(ZipError::Io(IoErrorKind::Other)),
            Err(e) => Err(e),
        }
    }

    /// Get a contained file by index without decompressing it: reads yield
    /// the stored bytes, unchecked.
    pub fn by_index_raw(&mut self, file_number: usize) -> (r: ZipResult<ZipFile>)
        ensures
            final(self).source() == old(self).source(),
            final(self).spec_offset() == old(self).spec_offset(),
            final(self).spec_comment() == old(self).spec_comment(),
            file_number >= old(self).entries().len() ==> (r matches Err(ZipError::FileNotFound))
                && final(self).entries() == old(self).entries(),
            file_number < old(self).entries().len() ==> {
                let f = old(self).entries()[file_number as int];
                &&& final(self).entries() == old(self).entries().update(file_number as int, resolved(old(self).source(), f))
                &&& match local_window(old(self).source(), f) {
                    Err(e) => (r matches Err(x) && x == e),
                    Ok((_, window)) => r matches Ok(z) && (z.wf() && z.model() == resolved(old(self).source(), f)
                        && z.pending() == Some(window) && z.verifies()),
                }
            },
    {
        if file_number >= self.files.len() {
            return Err(ZipError::FileNotFound);
        }
        let mut data = self.files[file_number].duplicate();
        let window = find_content(&mut data, self.reader.as_slice());
        let ghost before = self.entries();
        let stored = data.duplicate();
        proof {
            assert(models(self.files@.update(file_number as int, stored)) =~= before.update(
                file_number as int,
                data@,
            ));
            assert(before.update(file_number as int, before[file_number as int]) =~= before);
        }
        self.files.set(file_number, stored);
        let window = window?;
        Ok(ZipFile { crypto_reader: None, reader: ZipFileReader::Raw(RawReader::new(window)), data })
    }

    /// What extracting entry `i` writes: its name as a relative path (an
    /// invalid archive where the name is not enclosed), whether it is a
    /// directory, the checked contents of a file, and its Unix mode.
    pub fn extract_step(&mut self, i: usize) -> (r: ZipResult<ExtractStep>)
        ensures
            final(self).source() == old(self).source(),
            final(self).spec_offset() == old(self).spec_offset(),
            final(self).spec_comment() == old(self).spec_comment(),
            i >= old(self).entries().len() ==> (r matches Err(ZipError::FileNotFound)),
            i < old(self).entries().len() ==> {
                let s = old(self).source();
                let f = old(self).entries()[i as int];
                let g = resolved(s, f);
                match open_outcome(s, f, None) {
                    Err(e) => (r matches Err(x) && x == e),
                    Ok(None) => false,
                    Ok(Some(plain)) => if !is_enclosed(g.file_name) {
                        r == Err::<ExtractStep, ZipError>(ZipError::InvalidArchive("Invalid file path"))
                    } else if extracts_as_dir(g.file_name) {
                        r matches Ok(step) && step.path@ == g.file_name && step.is_dir
                            && step.contents@.len() == 0 && step.mode == unix_mode_of(
                            g.system,
                            g.external_attributes,
                        )
                    } else {
                        match expected_output(g.compression_method, plain) {
                            None => r matches Err(ZipError::Io(_)),
                            Some(out) => if crc32_of(out) == g.crc32 {
                                r matches Ok(step) && step.path@ == g.file_name && !step.is_dir
                                    && step.contents@ == out && step.mode == unix_mode_of(
                                    g.system,
                                    g.external_attributes,
                                )
                            } else {
                                r == Err::<ExtractStep, ZipError>(
                                    ZipError::Io(IoErrorKind::InvalidData),
                                )
                            },
                        }
                    },
                }
            },
    {
        let mut file = self.by_index(i)?;
        let path = match file.enclosed_name() {
            Some(p) => p.to_string(),
            None => {
                return Err(ZipError::InvalidArchive("Invalid file path"));
            },
        };
        let chars = chars_of(path.as_str());
        let n = chars.len();
        let is_dir = n > 0 && chars[n - 1] == '/';
        let mode = file.unix_mode();
        let contents = if is_dir {
            Vec::new()
        } else {
            file.read_to_end()?
        };
        Ok(ExtractStep { path, is_dir, contents, mode })
    }
}


/// The record that the local header at `p` describes, before its extra
/// field is applied; what only the central directory holds is left empty.
pub open spec fn local_fields(s: Seq<u8>, p: int) -> FileModel {
    let version_made_by = u16_le(s, p + 4);
    let flags = u16_le(s, p + 6);
    let name_raw = s.subrange(p + 30, p + 30 + u16_le(s, p + 26));
    FileModel {
        system: System::spec_from_u8((version_made_by / 256) as u8),
        version_made_by: (version_made_by % 256) as u8,
        encrypted: flag_encrypted(flags),
        using_data_descriptor: flag_data_descriptor(flags),
        compression_method: CompressionMethod::spec_from_u16(u16_le(s, p + 8)),
        last_modified_time: DateTime::spec_from_msdos(u16_le(s, p + 12), u16_le(s, p + 10)),
        crc32: u32_le(s, p + 14),
        compressed_size: u32_le(s, p + 18) as u64,
        uncompressed_size: u32_le(s, p + 22) as u64,
        file_name: decode_text(name_raw, flag_utf8(flags)),
        file_name_raw: name_raw,
        file_comment: Seq::empty(),
        header_start: 0,
        central_header_start: 0,
        data_start: 0,
        external_attributes: 0,
    }
}

/// Where the local header at `p` ends.
pub open spec fn local_header_end(s: Seq<u8>, p: int) -> int {
    p + 30 + u16_le(s, p + 26) + u16_le(s, p + 28)
}

/// The next entry of a stream positioned at `p`: `None` at the central
/// directory; otherwise the entry and where its stored bytes end (at most
/// the end of `s`).
#[verifier::opaque]
pub open spec fn stream_entry(s: Seq<u8>, p: int) -> Result<Option<(FileModel, int)>, ZipError> {
    if p + 4 > s.len() {
        Err(eof_error())
    } else if u32_le(s, p) == CENTRAL_DIRECTORY_HEADER_SIGNATURE {
        Ok(None)
    } else if u32_le(s, p) != LOCAL_FILE_HEADER_SIGNATURE {
        Err(ZipError::InvalidArchive("Invalid local file header"))
    } else if p + 30 > s.len() || local_header_end(s, p) > s.len() {
        Err(eof_error())
    } else {
        let extra_start = p + 30 + u16_le(s, p + 26);
        let f = apply_extra(
            local_fields(s, p),
            s.subrange(extra_start, local_header_end(s, p)),
            0,
        ).0;
        if f.encrypted {
            Err(ZipError::UnsupportedArchive("Encrypted files are not supported"))
        } else if flag_data_descriptor(u16_le(s, p + 6)) {
            Err(ZipError::UnsupportedArchive("The file length is not available in the local header"))
        } else if f.compression_method is Unsupported {
            Err(ZipError::UnsupportedArchive("Compression method not supported"))
        } else {
            Ok(Some((f, min_int(local_header_end(s, p) + f.compressed_size, s.len() as int))))
        }
    }
}

/// Reads the entry whose local header starts at `*pos` in a stream of
/// entries. Returns `Ok(None)` at the start of the central directory.
/// `*pos` moves past the entry's stored bytes, however much of the
/// returned entry is then read.
pub fn read_zipfile_from_stream(reader: &[u8], pos: &mut usize) -> (r: ZipResult<Option<ZipFile>>)
    ensures
        match stream_entry(reader@, *old(pos) as int) {
            Err(e) => (r matches Err(x) && x == e),
            Ok(None) => (r matches Ok(None)) && *final(pos) == *old(pos) + 4,
            Ok(Some((f, end))) => (r matches Ok(Some(z)) && opened_as(
                z,
                f,
                reader@.subrange(local_header_end(reader@, *old(pos) as int), end),
            )) && *final(pos) == end,
        },
{
    reveal(stream_entry);
    let n = reader.len();
    let p = *pos;
    if p > n || n - p < 4 {
        return Err(ZipError::Io(IoErrorKind::UnexpectedEof));
    }
    let signature = read_u32(reader, p)?;
    if signature == CENTRAL_DIRECTORY_HEADER_SIGNATURE {
        *pos = p + 4;
        return Ok(None);
    }
    if signature != LOCAL_FILE_HEADER_SIGNATURE {
        return Err(ZipError::InvalidArchive("Invalid local file header"));
    }
    if n - p < 30 {
        return Err(ZipError::Io(IoErrorKind::UnexpectedEof));
    }
    let version_made_by = read_u16(reader, p + 4)?;
    let flags = read_u16(reader, p + 6)?;
    let encrypted = flags % 2 == 1;
    let is_utf8 = (flags / 2048) % 2 == 1;
    let using_data_descriptor = (flags / 8) % 2 == 1;
    let compression_method = CompressionMethod::from_u16(read_u16(reader, p + 8)?);
    let last_mod_time = read_u16(reader, p + 10)?;
    let last_mod_date = read_u16(reader, p + 12)?;
    let crc32 = read_u32(reader, p + 14)?;
    let compressed_size = read_u32(reader, p + 18)?;
    let uncompressed_size = read_u32(reader, p + 22)?;
    let file_name_length = read_u16(reader, p + 26)? as usize;
    let extra_field_length = read_u16(reader, p + 28)? as usize;
    if n - (p + 30) < file_name_length + extra_field_length {
        return Err(ZipError::Io(IoErrorKind::UnexpectedEof));
    }
    let extra_start = p + 30 + file_name_length;
    let header_end = extra_start + extra_field_length;
    let file_name_raw = copy_range(reader, p + 30, extra_start);
    let extra_field = copy_range(reader, extra_start, header_end);
    let file_name = decode_name(file_name_raw.as_slice(), is_utf8);
    let mut result = ZipFileData {
        system: System::from_u8((version_made_by / 256) as u8),
        version_made_by: (version_made_by % 256) as u8,
        encrypted,
        using_data_descriptor,
        compression_method,
        last_modified_time: DateTime::from_msdos(last_mod_date, last_mod_time),
        crc32,
        compressed_size: compressed_size as u64,
        uncompressed_size: uncompressed_size as u64,
        file_name,
        file_name_raw,
        file_comment: String::new(),
        header_start: 0,
        data_start: 0,
        central_header_start: 0,
        external_attributes: 0,
    };
    assert(result@ == local_fields(reader@, p as int));
    let _ = parse_extra_field(&mut result, extra_field.as_slice());
    if result.encrypted {
        return Err(ZipError::UnsupportedArchive("Encrypted files are not supported"));
    }
    if using_data_descriptor {
        return Err(
            ZipError::UnsupportedArchive("The file length is not available in the local header"),
        );
    }
    let end: usize = if result.compressed_size >= (n - header_end) as u64 {
        n
    } else {
        header_end + result.compressed_size as usize
    };
    let limit_reader = copy_range(reader, header_end, end);
    let crypto_reader = match make_crypto_reader(
        result.compression_method,
        password_check_byte(&result),
        limit_reader,
        None,
    )? {
        Ok(c) => c,
        Err(_) => {
            return Err(ZipError::Io(IoErrorKind::Other));
        },
    };
    let file_reader = make_reader(result.compression_method, result.crc32, crypto_reader);
    *pos = end;
    Ok(Some(ZipFile { data: result, crypto_reader: None, reader: file_reader }))
}

} // verus!
