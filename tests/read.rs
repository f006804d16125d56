use std::io::Write;
use zip::read::read_zipfile_from_stream;
use zip::{CompressionMethod, InvalidPassword, IoErrorKind, System, ZipArchive, ZipError};

struct Entry {
    name: Vec<u8>,
    data: Vec<u8>,
    method: u16,
    flags: u16,
    stored: Vec<u8>,
    crc: u32,
    local_extra: Vec<u8>,
    central_extra: Vec<u8>,
    external_attributes: u32,
    version_made_by: u16,
    time: u16,
    date: u16,
}

fn crc(b: &[u8]) -> u32 {
    let mut c = flate2::Crc::new();
    c.update(b);
    c.sum()
}

fn deflate(b: &[u8]) -> Vec<u8> {
    let mut e = flate2::write::DeflateEncoder::new(Vec::new(), flate2::Compression::default());
    e.write_all(b).unwrap();
    e.finish().unwrap()
}

fn bzip(b: &[u8]) -> Vec<u8> {
    let mut e = bzip2::write::BzEncoder::new(Vec::new(), bzip2::Compression::default());
    e.write_all(b).unwrap();
    e.finish().unwrap()
}

fn crc_byte(c: u32, b: u8) -> u32 {
    let mut t = (c ^ b as u32) & 0xff;
    for _ in 0..8 {
        t = if t & 1 == 1 { 0xEDB88320 ^ (t >> 1) } else { t >> 1 };
    }
    (c >> 8) ^ t
}

struct Keys(u32, u32, u32);

impl Keys {
    fn new(pw: &[u8]) -> Keys {
        let mut k = Keys(0x12345678, 0x23456789, 0x34567890);
        for &b in pw {
            k.update(b);
        }
        k
    }
    fn update(&mut self, b: u8) {
        self.0 = crc_byte(self.0, b);
        self.1 = self.1.wrapping_add(self.0 & 0xff).wrapping_mul(0x08088405).wrapping_add(1);
        self.2 = crc_byte(self.2, (self.1 >> 24) as u8);
    }
    fn stream(&self) -> u8 {
        let t = (self.2 as u16) | 3;
        (t.wrapping_mul(t ^ 1) >> 8) as u8
    }
}

fn encrypt(pw: &[u8], check: u8, plain: &[u8]) -> Vec<u8> {
    let mut keys = Keys::new(pw);
    let mut header = vec![7u8, 1, 2, 3, 4, 5, 6, 7, 8, 9, 10];
    header.push(check);
    let mut out = Vec::new();
    for &p in header.iter().chain(plain.iter()) {
        out.push(p ^ keys.stream());
        keys.update(p);
    }
    out
}

fn entry(name: &str, data: &[u8], method: u16) -> Entry {
    let stored = match method {
        8 => deflate(data),
        12 => bzip(data),
        _ => data.to_vec(),
    };
    Entry {
        name: name.as_bytes().to_vec(),
        data: data.to_vec(),
        method,
        flags: 0,
        stored,
        crc: crc(data),
        local_extra: Vec::new(),
        central_extra: Vec::new(),
        external_attributes: 0,
        version_made_by: 0x031e,
        time: 0,
        date: 33,
    }
}

fn encrypted_entry(name: &str, data: &[u8], method: u16, pw: &[u8]) -> Entry {
    let mut e = entry(name, data, method);
    e.stored = encrypt(pw, (e.crc >> 24) as u8, &e.stored);
    e.flags |= 1;
    e
}

fn u16le(v: &mut Vec<u8>, x: u16) {
    v.extend_from_slice(&x.to_le_bytes());
}

fn u32le(v: &mut Vec<u8>, x: u32) {
    v.extend_from_slice(&x.to_le_bytes());
}

fn u64le(v: &mut Vec<u8>, x: u64) {
    v.extend_from_slice(&x.to_le_bytes());
}

fn local_headers(out: &mut Vec<u8>, entries: &[Entry]) -> Vec<usize> {
    let mut offsets = Vec::new();
    for e in entries {
        offsets.push(out.len());
        u32le(out, 0x04034b50);
        u16le(out, 20);
        u16le(out, e.flags);
        u16le(out, e.method);
        u16le(out, e.time);
        u16le(out, e.date);
        u32le(out, e.crc);
        u32le(out, e.stored.len() as u32);
        u32le(out, e.data.len() as u32);
        u16le(out, e.name.len() as u16);
        u16le(out, e.local_extra.len() as u16);
        out.extend_from_slice(&e.name);
        out.extend_from_slice(&e.local_extra);
        out.extend_from_slice(&e.stored);
    }
    offsets
}

fn central_header(out: &mut Vec<u8>, e: &Entry, csize: u32, usize_: u32, offset: u32, extra: &[u8]) {
    u32le(out, 0x02014b50);
    u16le(out, e.version_made_by);
    u16le(out, 20);
    u16le(out, e.flags);
    u16le(out, e.method);
    u16le(out, e.time);
    u16le(out, e.date);
    u32le(out, e.crc);
    u32le(out, csize);
    u32le(out, usize_);
    u16le(out, e.name.len() as u16);
    u16le(out, extra.len() as u16);
    u16le(out, 0);
    u16le(out, 0);
    u16le(out, 0);
    u32le(out, e.external_attributes);
    u32le(out, offset);
    out.extend_from_slice(&e.name);
    out.extend_from_slice(extra);
}

fn end_record(out: &mut Vec<u8>, count: u16, cd_size: u32, cd_offset: u32, comment: &[u8]) {
    u32le(out, 0x06054b50);
    u16le(out, 0);
    u16le(out, 0);
    u16le(out, count);
    u16le(out, count);
    u32le(out, cd_size);
    u32le(out, cd_offset);
    u16le(out, comment.len() as u16);
    out.extend_from_slice(comment);
}

fn build(entries: &[Entry], comment: &[u8]) -> Vec<u8> {
    let mut out = Vec::new();
    let offsets = local_headers(&mut out, entries);
    let cd_start = out.len();
    for (e, off) in entries.iter().zip(offsets.iter()) {
        central_header(&mut out, e, e.stored.len() as u32, e.data.len() as u32, *off as u32, &e.central_extra);
    }
    let cd_size = out.len() - cd_start;
    end_record(&mut out, entries.len() as u16, cd_size as u32, cd_start as u32, comment);
    out
}

fn build_zip64(entries: &[Entry], cd_offset_shift: u64) -> Vec<u8> {
    let mut out = Vec::new();
    let offsets = local_headers(&mut out, entries);
    let cd_start = out.len();
    for (e, off) in entries.iter().zip(offsets.iter()) {
        let mut extra = Vec::new();
        u16le(&mut extra, 0x0001);
        u16le(&mut extra, 24);
        u64le(&mut extra, e.data.len() as u64);
        u64le(&mut extra, e.stored.len() as u64);
        u64le(&mut extra, *off as u64);
        central_header(&mut out, e, 0xFFFFFFFF, 0xFFFFFFFF, 0xFFFFFFFF, &extra);
    }
    let cd_size = out.len() - cd_start;
    let eocd64 = out.len();
    u32le(&mut out, 0x06064b50);
    u64le(&mut out, 44);
    u16le(&mut out, 45);
    u16le(&mut out, 45);
    u32le(&mut out, 0);
    u32le(&mut out, 0);
    u64le(&mut out, entries.len() as u64);
    u64le(&mut out, entries.len() as u64);
    u64le(&mut out, cd_size as u64);
    u64le(&mut out, cd_start as u64 + cd_offset_shift);
    u32le(&mut out, 0x07064b50);
    u32le(&mut out, 0);
    u64le(&mut out, eocd64 as u64);
    u32le(&mut out, 1);
    end_record(&mut out, 0xFFFF, 0xFFFFFFFF, 0xFFFFFFFF, b"");
    out
}

fn mimetype_zip() -> Vec<u8> {
    let mut e = entry("mimetype", b"application/epub+zip", 0);
    let mut extra = Vec::new();
    u16le(&mut extra, 0x5455);
    u16le(&mut extra, 15);
    extra.extend_from_slice(&[1u8; 15]);
    e.local_extra = extra;
    build(&[e], b"")
}

fn with_junk(junk: usize, zip: &[u8]) -> Vec<u8> {
    let mut v = vec![0x55u8; junk];
    v.extend_from_slice(zip);
    v
}

#[test]
fn invalid_offset() {
    let mut v = build(&[entry("a.txt", b"hello", 0)], b"");
    let n = v.len();
    // central directory offset far past the end of the file
    v[n - 6..n - 2].copy_from_slice(&0x00FF_FFFFu32.to_le_bytes());
    let reader = ZipArchive::new(v);
    assert!(matches!(reader, Err(ZipError::InvalidArchive(_))));
}

#[test]
fn invalid_offset2() {
    let v = build_zip64(&[entry("a.txt", b"hello", 0)], 1 << 40);
    let reader = ZipArchive::new(v);
    assert!(matches!(reader, Err(ZipError::InvalidArchive(_))));
}

#[test]
fn zip64_with_leading_junk() {
    let v = with_junk(1000, &build_zip64(&[entry("demo.txt", b"zip64 demo contents", 8)], 0));
    let mut reader = ZipArchive::new(v).unwrap();
    assert!(reader.len() == 1);
    assert_eq!(reader.offset(), 1000);
    let mut f = reader.by_index(0).unwrap();
    assert_eq!(f.size(), 19);
    assert_eq!(f.header_start(), 1000);
    assert_eq!(f.read_to_end().unwrap(), b"zip64 demo contents".to_vec());
}

#[test]
fn zip_contents() {
    let mut reader = ZipArchive::new(mimetype_zip()).unwrap();
    assert!(reader.comment() == b"");
    assert_eq!(reader.by_index(0).unwrap().central_header_start(), 77);
}

#[test]
fn zip_read_streaming() {
    let v = mimetype_zip();
    let mut pos: usize = 0;
    let mut count = 0;
    loop {
        match read_zipfile_from_stream(&v, &mut pos).unwrap() {
            None => break,
            Some(_) => count += 1,
        }
    }
    assert_eq!(count, 1);
}

#[test]
fn zip_clone() {
    let mut reader1 = ZipArchive::new(mimetype_zip()).unwrap();
    let mut reader2 = reader1.clone();

    let mut file1 = reader1.by_index(0).unwrap();
    let mut file2 = reader2.by_index(0).unwrap();

    let t = file1.last_modified();
    assert_eq!(
        (t.year(), t.month(), t.day(), t.hour(), t.minute(), t.second()),
        (1980, 1, 1, 0, 0, 0)
    );

    let buf1 = file1.read(5).unwrap();
    let buf2 = file2.read(5).unwrap();
    let buf3 = file1.read(5).unwrap();
    let buf4 = file2.read(5).unwrap();

    assert_eq!(buf1, buf2);
    assert_eq!(buf3, buf4);
    assert!(buf1 != buf3);
}

#[test]
fn file_and_dir_predicates() {
    let v = build(
        &[
            entry("dir1/", b"", 0),
            entry("dir2/", b"", 0),
            entry("dir1/file1.txt", b"one", 0),
            entry("dir2/file2.txt", b"two", 0),
        ],
        b"",
    );
    let mut zip = ZipArchive::new(v).unwrap();
    for i in 0..zip.len() {
        let zip_file = zip.by_index(i).unwrap();
        let full_name = std::path::Path::new(zip_file.enclosed_name().unwrap());
        let file_name = full_name.file_name().unwrap().to_str().unwrap();
        assert!(
            (file_name.starts_with("dir") && zip_file.is_dir())
                || (file_name.starts_with("file") && zip_file.is_file())
        );
    }
}

#[test]
fn empty_archive() {
    let mut v = Vec::new();
    end_record(&mut v, 0, 0, 0, b"");
    let mut zip = ZipArchive::new(v).unwrap();
    assert_eq!(zip.len(), 0);
    assert!(zip.is_empty());
    assert_eq!(zip.offset(), 0);
    assert!(matches!(zip.by_index(0), Err(ZipError::FileNotFound)));
}

#[test]
fn single_stored_entry_contents() {
    let mut zip = ZipArchive::new(mimetype_zip()).unwrap();
    let mut f = zip.by_index(0).unwrap();
    assert_eq!(f.name(), "mimetype");
    assert_eq!(f.crc32(), crc(b"application/epub+zip"));
    assert_eq!(f.compression(), CompressionMethod::Stored);
    assert_eq!(f.data_start(), 57);
    let bytes = f.read_to_end().unwrap();
    assert_eq!(bytes, b"application/epub+zip".to_vec());
    assert_eq!(bytes.len(), 20);
}

#[test]
fn deflated_and_bzip2_entries_round_trip() {
    let text: Vec<u8> = (0..5000u32).map(|i| (i % 251) as u8).collect();
    let v = build(&[entry("d.bin", &text, 8), entry("b.bin", &text, 12), entry("s.bin", &text, 0)], b"note");
    let mut zip = ZipArchive::new(v).unwrap();
    assert_eq!(zip.comment(), b"note");
    assert_eq!(zip.by_index(0).unwrap().compression(), CompressionMethod::Deflated);
    assert_eq!(zip.by_index(1).unwrap().compression(), CompressionMethod::Bzip2);
    for i in 0..3 {
        let mut f = zip.by_index(i).unwrap();
        assert_eq!(f.size(), 5000);
        assert_eq!(f.read_to_end().unwrap(), text);
    }
}

#[test]
fn tampered_byte_fails_crc_check() {
    for method in [0u16, 8] {
        let mut e = entry("t.txt", b"some text that will be checked", method);
        let k = e.stored.len() / 2;
        if method == 0 {
            e.stored[k] ^= 0x01;
        } else {
            e.crc ^= 1;
        }
        let mut zip = ZipArchive::new(build(&[e], b"")).unwrap();
        let mut f = zip.by_index(0).unwrap();
        assert!(matches!(f.read_to_end(), Err(ZipError::Io(IoErrorKind::InvalidData))));
    }
}

#[test]
fn corrupt_deflate_stream_is_an_io_error() {
    let mut e = entry("x", b"abc", 8);
    e.stored = vec![0xFF, 0xFF, 0xFF, 0xFF];
    let mut zip = ZipArchive::new(build(&[e], b"")).unwrap();
    let mut f = zip.by_index(0).unwrap();
    assert!(matches!(f.read_to_end(), Err(ZipError::Io(_))));
}

#[test]
fn encrypted_entries_decrypt() {
    for method in [0u16, 8] {
        let e = encrypted_entry("secret.txt", b"attack at dawn, attack at dawn", method, b"pw");
        let mut zip = ZipArchive::new(build(&[e], b"")).unwrap();
        let mut f = zip.by_index_decrypt(0, b"pw").unwrap().unwrap();
        assert_eq!(f.read_to_end().unwrap(), b"attack at dawn, attack at dawn".to_vec());
    }
}

#[test]
fn wrong_password_then_right_password() {
    let e = encrypted_entry("secret.txt", b"attack at dawn", 0, b"right");
    let mut zip = ZipArchive::new(build(&[e], b"")).unwrap();
    let mut wrong = b"wrong".to_vec();
    let mut seen_invalid = false;
    for k in 0..20u8 {
        wrong[0] = b'a' + k;
        if let Ok(Err(InvalidPassword)) = zip.by_index_decrypt(0, &wrong) {
            seen_invalid = true;
            break;
        }
    }
    assert!(seen_invalid);
    let mut f = zip.by_index_decrypt(0, b"right").unwrap().unwrap();
    assert_eq!(f.read_to_end().unwrap(), b"attack at dawn".to_vec());
}

#[test]
fn password_required_for_encrypted_entry() {
    let e = encrypted_entry("secret.txt", b"attack at dawn", 0, b"right");
    let mut zip = ZipArchive::new(build(&[e], b"")).unwrap();
    assert!(matches!(zip.by_index(0), Err(ZipError::UnsupportedArchive(_))));
}

#[test]
fn password_ignored_for_plain_entry() {
    let mut zip = ZipArchive::new(mimetype_zip()).unwrap();
    let mut f = zip.by_index_decrypt(0, b"anything").unwrap().unwrap();
    assert_eq!(f.read_to_end().unwrap(), b"application/epub+zip".to_vec());
}

#[test]
fn unsupported_method_is_refused() {
    let mut e = entry("x", b"abc", 0);
    e.method = 99;
    let mut zip = ZipArchive::new(build(&[e], b"")).unwrap();
    assert_eq!(zip.by_index_raw(0).unwrap().compression(), CompressionMethod::Unsupported(99));
    assert!(matches!(zip.by_index(0), Err(ZipError::UnsupportedArchive(_))));
}

#[test]
fn raw_read_gives_stored_bytes() {
    let e = entry("d.txt", b"aaaaaaaaaaaaaaaaaaaaaaaaaaaaaa", 8);
    let stored = e.stored.clone();
    let mut zip = ZipArchive::new(build(&[e], b"")).unwrap();
    let mut f = zip.by_index_raw(0).unwrap();
    let raw = f.read_to_end().unwrap();
    assert_eq!(raw, stored);
    assert_ne!(raw, b"aaaaaaaaaaaaaaaaaaaaaaaaaaaaaa".to_vec());
}

#[test]
fn junk_prefix_shifts_offset() {
    let zip = build(&[entry("a.txt", b"alpha", 0), entry("b.txt", b"beta", 8)], b"c");
    for n in [0usize, 1, 17, 4096] {
        let mut archive = ZipArchive::new(with_junk(n, &zip)).unwrap();
        assert_eq!(archive.offset(), n as u64);
        let mut b = archive.by_name("b.txt").unwrap();
        assert_eq!(b.read_to_end().unwrap(), b"beta".to_vec());
    }
}

#[test]
fn zip64_fields_are_promoted() {
    let v = build_zip64(&[entry("a", b"0123456789", 0), entry("b", b"xyz", 0)], 0);
    let mut zip = ZipArchive::new(v).unwrap();
    assert_eq!(zip.offset(), 0);
    let f = zip.by_index(1).unwrap();
    assert_eq!(f.size(), 3);
    assert_eq!(f.compressed_size(), 3);
    assert_eq!(f.header_start(), 41);
}

#[test]
fn sentinel_without_zip64_record_is_rejected() {
    let e = entry("a", b"0123", 0);
    let mut out = Vec::new();
    let offsets = local_headers(&mut out, std::slice::from_ref(&e));
    let cd = out.len();
    central_header(&mut out, &e, 4, 0xFFFFFFFF, offsets[0] as u32, b"");
    let size = out.len() - cd;
    end_record(&mut out, 1, size as u32, cd as u32, b"");
    assert!(matches!(ZipArchive::new(out), Err(ZipError::InvalidArchive(_))));
}

#[test]
fn utf8_extra_field_name() {
    let real = "\u{81ea}\u{3092}.txt";
    let mut e = entry("raw-name.txt", b"x", 0);
    let mut extra = Vec::new();
    u16le(&mut extra, 0x7075);
    u16le(&mut extra, (5 + real.len()) as u16);
    extra.push(1);
    u32le(&mut extra, crc(&e.name));
    extra.extend_from_slice(real.as_bytes());
    e.central_extra = extra;
    let mut zip = ZipArchive::new(build(&[e], b"")).unwrap();
    assert!(zip.file_names().iter().any(|n| n == real));
    assert_eq!(zip.by_index(0).unwrap().name(), real);
    assert_eq!(zip.by_index(0).unwrap().name_raw(), b"raw-name.txt");
}

#[test]
fn utf8_extra_field_with_wrong_crc_is_ignored() {
    let mut e = entry("raw-name.txt", b"x", 0);
    let mut extra = Vec::new();
    u16le(&mut extra, 0x7075);
    u16le(&mut extra, 9);
    extra.push(1);
    u32le(&mut extra, crc(&e.name) ^ 1);
    extra.extend_from_slice(b"nope");
    e.central_extra = extra;
    let mut zip = ZipArchive::new(build(&[e], b"")).unwrap();
    assert_eq!(zip.by_index(0).unwrap().name(), "raw-name.txt");
}

#[test]
fn names_decode_by_flag() {
    let mut a = entry("x", b"", 0);
    a.name = vec![0x80, b'a'];
    let mut b = entry("x", b"", 0);
    b.name = "\u{00e9}t\u{00e9}".as_bytes().to_vec();
    b.flags = 1 << 11;
    let mut c = entry("x", b"", 0);
    c.name = vec![0xFF, b'z'];
    c.flags = 1 << 11;
    let mut zip = ZipArchive::new(build(&[a, b, c], b"")).unwrap();
    assert_eq!(zip.by_index(0).unwrap().name(), "\u{00c7}a");
    assert_eq!(zip.by_index(1).unwrap().name(), "\u{00e9}t\u{00e9}");
    assert_eq!(zip.by_index(2).unwrap().name(), "\u{fffd}z");
}

#[test]
fn duplicate_names_last_wins() {
    let v = build(&[entry("same", b"first", 0), entry("other", b"o", 0), entry("same", b"second", 0)], b"");
    let mut zip = ZipArchive::new(v).unwrap();
    let mut names = zip.file_names();
    names.sort();
    assert_eq!(names, vec!["other".to_string(), "same".to_string()]);
    assert_eq!(zip.by_name("same").unwrap().read_to_end().unwrap(), b"second".to_vec());
    assert_eq!(zip.by_index(0).unwrap().read_to_end().unwrap(), b"first".to_vec());
    assert!(matches!(zip.by_name("missing"), Err(ZipError::FileNotFound)));
}

#[test]
fn by_name_decrypt_finds_entry() {
    let e = encrypted_entry("s", b"hidden", 8, b"k");
    let mut zip = ZipArchive::new(build(&[e], b"")).unwrap();
    let mut f = zip.by_name_decrypt("s", b"k").unwrap().unwrap();
    assert_eq!(f.read_to_end().unwrap(), b"hidden".to_vec());
}

#[test]
fn enclosed_and_mangled_names() {
    let names = ["a/b.txt", "/etc/passwd", "../up", "a/../../up", "a/../b", "nul\0x", "./c//d/", "C:\\x\\..\\y"];
    let v = build(&names.iter().map(|n| entry(n, b"", 0)).collect::<Vec<_>>(), b"");
    let mut zip = ZipArchive::new(v).unwrap();
    let expect_enclosed = [true, false, false, false, true, false, true, true];
    let expect_mangled = ["a/b.txt", "etc/passwd", "up", "a/up", "a/b", "nul", "c/d", "C:/x/y"];
    for i in 0..names.len() {
        let f = zip.by_index(i).unwrap();
        assert_eq!(f.enclosed_name().is_some(), expect_enclosed[i], "{}", names[i]);
        assert_eq!(f.mangled_name(), expect_mangled[i], "{}", names[i]);
        assert_eq!(f.sanitized_name(), expect_mangled[i]);
    }
}

#[test]
fn unix_mode_from_attributes() {
    let mut unix = entry("u", b"", 0);
    unix.external_attributes = 0o100644 << 16;
    let mut dos_dir = entry("d/", b"", 0);
    dos_dir.version_made_by = 0x0014;
    dos_dir.external_attributes = 0x10;
    let mut dos_ro = entry("r", b"", 0);
    dos_ro.version_made_by = 0x0014;
    dos_ro.external_attributes = 0x01;
    let zero = entry("z", b"", 0);
    let mut other = entry("o", b"", 0);
    other.version_made_by = 0x0a14;
    other.external_attributes = 5;
    let mut zip = ZipArchive::new(build(&[unix, dos_dir, dos_ro, zero, other], b"")).unwrap();
    assert_eq!(zip.by_index(0).unwrap().unix_mode(), Some(0o100644));
    assert_eq!(zip.by_index(1).unwrap().unix_mode(), Some(0o40775));
    assert_eq!(zip.by_index(2).unwrap().unix_mode(), Some(0o444));
    assert_eq!(zip.by_index(3).unwrap().unix_mode(), None);
    assert_eq!(zip.by_index(4).unwrap().unix_mode(), None);
    assert_eq!(zip.by_index(1).unwrap().version_made_by(), (2, 0));
    assert_eq!(zip.by_index(0).unwrap().version_made_by(), (3, 0));
}

#[test]
fn msdos_timestamp_decoding() {
    let mut e = entry("t", b"", 0);
    e.date = ((2021 - 1980) << 9) | (7 << 5) | 14;
    e.time = (13 << 11) | (45 << 5) | 11;
    let mut zip = ZipArchive::new(build(&[e], b"")).unwrap();
    let t = zip.by_index(0).unwrap().last_modified();
    assert_eq!((t.year(), t.month(), t.day(), t.hour(), t.minute(), t.second()), (2021, 7, 14, 13, 45, 22));
}

#[test]
fn streaming_partial_read_then_next() {
    let v = build(&[entry("one", b"first entry bytes", 8), entry("two", b"second", 0)], b"");
    let mut pos: usize = 0;
    {
        let mut f = read_zipfile_from_stream(&v, &mut pos).unwrap().unwrap();
        assert_eq!(f.name(), "one");
        assert_eq!(f.read(3).unwrap(), b"fir".to_vec());
    }
    let mut g = read_zipfile_from_stream(&v, &mut pos).unwrap().unwrap();
    assert_eq!(g.name(), "two");
    assert_eq!(g.read_to_end().unwrap(), b"second".to_vec());
    assert!(read_zipfile_from_stream(&v, &mut pos).unwrap().is_none());
}

#[test]
fn streaming_refuses_encrypted_and_descriptor_entries() {
    let v = build(&[encrypted_entry("s", b"x", 0, b"p")], b"");
    let mut pos: usize = 0;
    assert!(matches!(read_zipfile_from_stream(&v, &mut pos), Err(ZipError::UnsupportedArchive(_))));
    let mut e = entry("d", b"x", 0);
    e.flags = 1 << 3;
    let v = build(&[e], b"");
    let mut pos: usize = 0;
    assert!(matches!(read_zipfile_from_stream(&v, &mut pos), Err(ZipError::UnsupportedArchive(_))));
    let mut pos: usize = 1;
    assert!(matches!(read_zipfile_from_stream(&v, &mut pos), Err(ZipError::InvalidArchive(_))));
}

#[test]
fn missing_end_record_is_invalid() {
    assert!(matches!(ZipArchive::new(b"not a zip file at all, not at all".to_vec()), Err(ZipError::InvalidArchive(_))));
    assert!(matches!(ZipArchive::new(Vec::new()), Err(ZipError::InvalidArchive(_))));
}

#[test]
fn multi_disk_is_unsupported() {
    let mut v = Vec::new();
    u32le(&mut v, 0x06054b50);
    u16le(&mut v, 1);
    u16le(&mut v, 0);
    v.extend_from_slice(&[0u8; 14]);
    assert!(matches!(ZipArchive::new(v), Err(ZipError::UnsupportedArchive(_))));
}

#[test]
fn truncated_central_header_is_io_error() {
    let v = build(&[entry("a.txt", b"hello", 0)], b"");
    let n = v.len();
    let mut w = v.clone();
    // claim two entries in the directory that holds one
    w[n - 14..n - 12].copy_from_slice(&2u16.to_le_bytes());
    assert!(matches!(ZipArchive::new(w), Err(_)));
    let archive = ZipArchive::new(v.clone()).unwrap();
    assert_eq!(archive.into_inner(), v);
}

#[test]
fn system_and_method_codes() {
    assert_eq!(System::from_u8(0), System::Dos);
    assert_eq!(System::from_u8(3), System::Unix);
    assert_eq!(System::from_u8(7), System::Other(7));
    assert_eq!(CompressionMethod::from_u16(8), CompressionMethod::Deflated);
    assert_eq!(CompressionMethod::from_u16(12), CompressionMethod::Bzip2);
    assert_eq!(CompressionMethod::from_u16(0), CompressionMethod::Stored);
    assert_eq!(CompressionMethod::from_u16(9), CompressionMethod::Unsupported(9));
}

#[test]
fn extract_steps_follow_entries() {
    let mut f = entry("dir/f.txt", b"payload", 8);
    f.external_attributes = 0o100600 << 16;
    let v = build(&[entry("dir/", b"", 0), f, entry("../evil", b"x", 0)], b"");
    let mut zip = ZipArchive::new(v).unwrap();
    let d = zip.extract_step(0).unwrap();
    assert!(d.is_dir);
    assert_eq!(d.path, "dir/");
    assert!(d.contents.is_empty());
    let s = zip.extract_step(1).unwrap();
    assert!(!s.is_dir);
    assert_eq!(s.path, "dir/f.txt");
    assert_eq!(s.contents, b"payload".to_vec());
    assert_eq!(s.mode, Some(0o100600));
    assert!(matches!(zip.extract_step(2), Err(ZipError::InvalidArchive(_))));
    assert!(matches!(zip.extract_step(3), Err(ZipError::FileNotFound)));
}

#[test]
fn data_descriptor_entries_check_the_time_byte() {
    let mut e = entry("dd.txt", b"written with a descriptor", 0);
    e.time = 0x5A3C;
    e.flags = 1 | 8;
    e.stored = encrypt(b"pw", 0x5A, &e.stored);
    let mut zip = ZipArchive::new(build(&[e], b"")).unwrap();
    let mut f = zip.by_index_decrypt(0, b"pw").unwrap().unwrap();
    assert_eq!(f.read_to_end().unwrap(), b"written with a descriptor".to_vec());
}

#[test]
fn error_reasons_are_exact() {
    assert!(matches!(
        ZipArchive::new(b"short".to_vec()),
        Err(ZipError::InvalidArchive("Could not find central directory end"))
    ));
    let mut e = entry("x", b"abc", 0);
    e.method = 99;
    let mut zip = ZipArchive::new(build(&[e], b"")).unwrap();
    assert!(matches!(zip.by_index(0), Err(ZipError::UnsupportedArchive("Compression method not supported"))));
    let mut zip = ZipArchive::new(build(&[entry("../x", b"", 0)], b"")).unwrap();
    assert!(matches!(zip.extract_step(0), Err(ZipError::InvalidArchive("Invalid file path"))));
    let v = build(&[encrypted_entry("s", b"x", 0, b"p")], b"");
    let mut pos: usize = 0;
    assert!(matches!(
        read_zipfile_from_stream(&v, &mut pos),
        Err(ZipError::UnsupportedArchive("Encrypted files are not supported"))
    ));
    let mut d = entry("d", b"x", 0);
    d.flags = 8;
    let v = build(&[d], b"");
    let mut pos: usize = 0;
    assert!(matches!(
        read_zipfile_from_stream(&v, &mut pos),
        Err(ZipError::UnsupportedArchive("The file length is not available in the local header"))
    ));
    let mut pos: usize = 1;
    assert!(matches!(
        read_zipfile_from_stream(&v, &mut pos),
        Err(ZipError::InvalidArchive("Invalid local file header"))
    ));
}
