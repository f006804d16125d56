//! Archives behind prepended bytes: everything read from the archive proper
//! is found at the same place, shifted by the number of bytes in front.
use crate::read::{
    apply_extra, local_window, min_int, open_outcome, central_extra, central_fields, central_header_end, directory_counts,
    has_zip64_locator, parse_archive, parse_central, parse_entries, zip64_locator_pos,
};
use crate::spec::{
    eocd_comment_len, eocd_fits, eocd_search_lower, find_eocd, last_eocd, scan_eocd64, u16_le,
    u32_le, u64_le, ZIP64_CENTRAL_DIRECTORY_END_SIGNATURE,
};
use crate::types::FileModel;
use vstd::prelude::*;

verus! {

/// `f` with its offsets in the source moved `n` bytes further.
pub open spec fn shift_entry(f: FileModel, n: int) -> FileModel {
    FileModel {
        header_start: (f.header_start + n) as u64,
        central_header_start: (f.central_header_start + n) as u64,
        ..f
    }
}

/// Each of `files` with its offsets moved `n` bytes further.
pub open spec fn shift_entries(files: Seq<FileModel>, n: int) -> Seq<FileModel> {
    files.map_values(|f: FileModel| shift_entry(f, n))
}

proof fn lemma_byte(junk: Seq<u8>, s: Seq<u8>, p: int)
    requires
        0 <= p < s.len(),
    ensures
        (junk + s)[p + junk.len()] == s[p],
{
}

proof fn lemma_u16(junk: Seq<u8>, s: Seq<u8>, p: int)
    requires
        0 <= p && p + 2 <= s.len(),
    ensures
        u16_le(junk + s, p + junk.len()) == u16_le(s, p),
{
    lemma_byte(junk, s, p);
    lemma_byte(junk, s, p + 1);
}

proof fn lemma_u32(junk: Seq<u8>, s: Seq<u8>, p: int)
    requires
        0 <= p && p + 4 <= s.len(),
    ensures
        u32_le(junk + s, p + junk.len()) == u32_le(s, p),
{
    lemma_byte(junk, s, p);
    lemma_byte(junk, s, p + 1);
    lemma_byte(junk, s, p + 2);
    lemma_byte(junk, s, p + 3);
}

proof fn lemma_u64(junk: Seq<u8>, s: Seq<u8>, p: int)
    requires
        0 <= p && p + 8 <= s.len(),
    ensures
        u64_le(junk + s, p + junk.len()) == u64_le(s, p),
{
    lemma_u32(junk, s, p);
    lemma_u32(junk, s, p + 4);
}

proof fn lemma_range(junk: Seq<u8>, s: Seq<u8>, a: int, b: int)
    requires
        0 <= a <= b <= s.len(),
    ensures
        (junk + s).subrange(a + junk.len(), b + junk.len()) == s.subrange(a, b),
{
    assert((junk + s).subrange(a + junk.len(), b + junk.len()) =~= s.subrange(a, b));
}

/// The backward search finds the same end record, shifted.
proof fn lemma_last_eocd(junk: Seq<u8>, s: Seq<u8>, p: int)
    requires
        p + 22 <= s.len(),
        last_eocd(s, p, eocd_search_lower(s)) is Some,
    ensures
        last_eocd(junk + s, p + junk.len(), eocd_search_lower(junk + s)) == Some(
            last_eocd(s, p, eocd_search_lower(s))->0 + junk.len(),
        ),
    decreases p + 1,
{
    let t = junk + s;
    if p >= 0 {
        lemma_u32(junk, s, p);
        if u32_le(s, p) != crate::spec::CENTRAL_DIRECTORY_END_SIGNATURE {
            lemma_last_eocd(junk, s, p - 1);
        }
    }
}

/// The end record of `junk + s` is that of `s`, shifted.
pub proof fn lemma_find_eocd(junk: Seq<u8>, s: Seq<u8>)
    requires
        find_eocd(s) is Some,
    ensures
        find_eocd(junk + s) == Some(find_eocd(s)->0 + junk.len()),
{
    lemma_last_eocd(junk, s, s.len() - 22);
}


/// The extra field walk neither reads nor writes where the central header
/// stands.
proof fn lemma_extra_ignores_position(f: FileModel, b: Seq<u8>, p: int, x: u64)
    ensures
        apply_extra(FileModel { central_header_start: x, ..f }, b, p) == (
            FileModel { central_header_start: x, ..apply_extra(f, b, p).0 },
            apply_extra(f, b, p).1,
        ),
    decreases b.len() - p,
{
    if 0 <= p < b.len() && p + 4 <= b.len() {
        let len = u16_le(b, p + 2) as int;
        let g = FileModel { central_header_start: x, ..f };
        let step_f = if u16_le(b, p) == 0x0001 {
            crate::read::apply_zip64(f, b, p + 4)
        } else if u16_le(b, p) == 0x7075 {
            crate::read::apply_unicode_path(f, b, p + 4, len)
        } else {
            (f, true)
        };
        if step_f.1 && p + 4 + len < b.len() {
            lemma_extra_ignores_position(step_f.0, b, p + 4 + len, x);
        }
    }
}

/// A central header read behind prepended bytes gives the same entry, its
/// offsets shifted.
proof fn lemma_parse_central(junk: Seq<u8>, s: Seq<u8>, p: int, archive_offset: u64)
    requires
        0 <= p,
        (junk + s).len() <= u64::MAX,
        archive_offset + junk.len() <= u64::MAX,
        parse_central(s, p, archive_offset) is Ok,
        parse_central(s, p, archive_offset)->Ok_0.header_start + junk.len() <= u64::MAX,
    ensures
        parse_central(junk + s, p + junk.len(), (archive_offset + junk.len()) as u64) == Ok::<
            FileModel,
            crate::result::ZipError,
        >(shift_entry(parse_central(s, p, archive_offset)->Ok_0, junk.len() as int)),
        central_header_end(junk + s, p + junk.len()) == central_header_end(s, p) + junk.len(),
{
    reveal(parse_central);
    let t = junk + s;
    let n = junk.len() as int;
    let q = p + n;
    lemma_u32(junk, s, p);
    assert(p + 46 <= s.len());
    lemma_u16(junk, s, p + 4);
    lemma_u16(junk, s, p + 8);
    lemma_u16(junk, s, p + 10);
    lemma_u16(junk, s, p + 12);
    lemma_u16(junk, s, p + 14);
    lemma_u32(junk, s, p + 16);
    lemma_u32(junk, s, p + 20);
    lemma_u32(junk, s, p + 24);
    lemma_u16(junk, s, p + 28);
    lemma_u16(junk, s, p + 30);
    lemma_u16(junk, s, p + 32);
    lemma_u32(junk, s, p + 38);
    lemma_u32(junk, s, p + 42);
    let nl = crate::read::central_name_len(s, p);
    let el = crate::read::central_extra_len(s, p);
    let cl = crate::read::central_comment_len(s, p);
    lemma_range(junk, s, p + 46, p + 46 + nl);
    lemma_range(junk, s, p + 46 + nl, p + 46 + nl + el);
    lemma_range(junk, s, p + 46 + nl + el, p + 46 + nl + el + cl);
    let fs = central_fields(s, p);
    let ft = central_fields(t, q);
    assert(ft == FileModel { central_header_start: q as u64, ..fs });
    assert(central_extra(t, q) == central_extra(s, p));
    lemma_extra_ignores_position(fs, central_extra(s, p), 0, q as u64);
    lemma_extra_ignores_position(fs, central_extra(s, p), 0, fs.central_header_start);
    assert(FileModel { central_header_start: fs.central_header_start, ..fs } == fs);
    let fe = apply_extra(fs, central_extra(s, p), 0).0;
    assert(apply_extra(ft, central_extra(t, q), 0).0 == FileModel { central_header_start: q as u64, ..fe });
    assert(fe.central_header_start == p as u64);
    assert(parse_central(s, p, archive_offset) == Ok::<FileModel, crate::result::ZipError>(
        FileModel { header_start: (fe.header_start + archive_offset) as u64, ..fe },
    ));
    assert(u32_le(t, q) == u32_le(s, p));
    assert(central_header_end(t, q) == central_header_end(s, p) + n);
}

/// The list of entries read behind prepended bytes is the same, shifted.
proof fn lemma_parse_entries(
    junk: Seq<u8>,
    s: Seq<u8>,
    p: int,
    count: nat,
    archive_offset: u64,
)
    requires
        0 <= p,
        (junk + s).len() <= u64::MAX,
        archive_offset + junk.len() <= u64::MAX,
        parse_entries(s, p, count, archive_offset) is Ok,
        forall|i: int|
            0 <= i < parse_entries(s, p, count, archive_offset)->Ok_0.len() ==> #[trigger] parse_entries(
                s,
                p,
                count,
                archive_offset,
            )->Ok_0[i].header_start + junk.len() <= u64::MAX,
    ensures
        parse_entries(junk + s, p + junk.len(), count, (archive_offset + junk.len()) as u64) == Ok::<
            Seq<FileModel>,
            crate::result::ZipError,
        >(shift_entries(parse_entries(s, p, count, archive_offset)->Ok_0, junk.len() as int)),
    decreases count,
{
    if count == 0 {
        assert(shift_entries(Seq::<FileModel>::empty(), junk.len() as int) =~= Seq::<FileModel>::empty());
    } else {
        let files = parse_entries(s, p, count, archive_offset)->Ok_0;
        let f = parse_central(s, p, archive_offset)->Ok_0;
        assert(files[0] == f);
        lemma_parse_central(junk, s, p, archive_offset);
        let next = central_header_end(s, p);
        let rest = parse_entries(s, next, (count - 1) as nat, archive_offset)->Ok_0;
        assert forall|i: int| 0 <= i < rest.len() implies #[trigger] rest[i].header_start
            + junk.len() <= u64::MAX by {
            assert(files[i + 1] == rest[i]);
        }
        lemma_parse_entries(junk, s, next, (count - 1) as nat, archive_offset);
        assert(files == seq![f] + rest);
        let n = junk.len() as int;
        assert(parse_entries(junk + s, p + n, count, (archive_offset + n) as u64) == Ok::<
            Seq<FileModel>,
            crate::result::ZipError,
        >(seq![shift_entry(f, n)] + shift_entries(rest, n)));
        assert(shift_entries(files, junk.len() as int) =~= seq![shift_entry(f, junk.len() as int)]
            + shift_entries(rest, junk.len() as int));
    }
}

/// The forward search for the ZIP64 end record finds the same record,
/// shifted, when it starts from a shifted place.
proof fn lemma_scan_shift(junk: Seq<u8>, s: Seq<u8>, q: int, upper: int)
    requires
        0 <= q,
        scan_eocd64(s, q, upper) is Ok,
    ensures
        scan_eocd64(junk + s, q + junk.len(), upper + junk.len()) == Ok::<int, crate::result::ZipError>(
            scan_eocd64(s, q, upper)->Ok_0 + junk.len(),
        ),
    decreases upper + 1 - q,
{
    lemma_u32(junk, s, q);
    if u32_le(s, q) != ZIP64_CENTRAL_DIRECTORY_END_SIGNATURE {
        lemma_scan_shift(junk, s, q + 1, upper);
    }
}

/// The forward search passes over positions that hold no ZIP64 end record
/// signature.
proof fn lemma_scan_skip(t: Seq<u8>, q: int, stop: int, upper: int)
    requires
        q <= stop <= upper + 1,
        stop + 4 <= t.len(),
        forall|r: int| q <= r < stop ==> #[trigger] u32_le(t, r) != ZIP64_CENTRAL_DIRECTORY_END_SIGNATURE,
    ensures
        scan_eocd64(t, q, upper) == scan_eocd64(t, stop, upper),
    decreases stop - q,
{
    if q < stop {
        lemma_scan_skip(t, q + 1, stop, upper);
    }
}

/// The end record of `s`.
pub open spec fn end_record_pos(s: Seq<u8>) -> int {
    find_eocd(s)->0
}

/// The bytes `junk` put in front of `s` fake no ZIP64 record that the reader
/// would take for the archive's: where `s` is too short to hold a ZIP64
/// locator, none appears in the joined bytes in front of its end record; and
/// where `s` has one, no ZIP64 end record signature appears in the joined
/// bytes in the `junk.len()` positions from the record's recorded offset.
pub open spec fn prefix_fakes_no_zip64(junk: Seq<u8>, s: Seq<u8>) -> bool {
    let t = junk + s;
    let cde = end_record_pos(s);
    let loc = zip64_locator_pos(s, cde);
    &&& loc < 0 ==> !has_zip64_locator(t, cde + junk.len())
    &&& has_zip64_locator(s, cde) ==> forall|q: int|
        u64_le(s, loc + 8) <= q < u64_le(s, loc + 8) + junk.len() ==> #[trigger] u32_le(t, q)
            != ZIP64_CENTRAL_DIRECTORY_END_SIGNATURE
}

/// The directory counts behind prepended bytes: the offset grows by their
/// number, and so does the directory start.
#[verifier::rlimit(40)]
proof fn lemma_directory_counts(junk: Seq<u8>, s: Seq<u8>)
    requires
        find_eocd(s) is Some,
        eocd_fits(s, end_record_pos(s)),
        directory_counts(s, end_record_pos(s)) is Ok,
        directory_counts(s, end_record_pos(s))->Ok_0.1 <= s.len(),
        (junk + s).len() <= u64::MAX,
        prefix_fakes_no_zip64(junk, s),
    ensures
        ({
            let cde = end_record_pos(s);
            let (archive_offset, directory_start, count) = directory_counts(s, cde)->Ok_0;
            directory_counts(junk + s, cde + junk.len()) == Ok::<
                (u64, u64, int),
                crate::result::ZipError,
            >(((archive_offset + junk.len()) as u64, (directory_start + junk.len()) as u64, count))
                && archive_offset <= directory_start
        }),
{
    reveal(directory_counts);
    let t = junk + s;
    let n = junk.len() as int;
    let cde = end_record_pos(s);
    lemma_u16(junk, s, cde + 4);
    lemma_u32(junk, s, cde + 12);
    lemma_u32(junk, s, cde + 16);
    lemma_u16(junk, s, cde + 8);
    lemma_u16(junk, s, cde + 20);
    let loc = zip64_locator_pos(s, cde);
    assert(zip64_locator_pos(t, cde + n) == loc + n);
    if loc >= 0 {
        lemma_u32(junk, s, loc);
        assert(has_zip64_locator(t, cde + n) == has_zip64_locator(s, cde));
    }
    if has_zip64_locator(s, cde) {
        lemma_u32(junk, s, loc + 4);
        lemma_u64(junk, s, loc + 8);
        let nominal = u64_le(s, loc + 8) as int;
        let p = scan_eocd64(s, nominal, cde - 60)->Ok_0;
        lemma_scan_shift(junk, s, nominal, cde - 60);
        assert(p >= nominal) by {
            lemma_scan_result_range(s, nominal, cde - 60);
        }
        lemma_scan_skip(t, nominal, nominal + n, cde + n - 60);
        lemma_u32(junk, s, p + 16);
        lemma_u32(junk, s, p + 20);
        lemma_u64(junk, s, p + 32);
        lemma_u64(junk, s, p + 48);
    }
}

/// The forward search finds nothing before where it starts.
proof fn lemma_scan_result_range(s: Seq<u8>, q: int, upper: int)
    ensures
        scan_eocd64(s, q, upper) matches Ok(p) ==> q <= p <= upper,
    decreases upper + 1 - q,
{
    if q <= upper && q + 4 <= s.len() && u32_le(s, q) != ZIP64_CENTRAL_DIRECTORY_END_SIGNATURE {
        lemma_scan_result_range(s, q + 1, upper);
    }
}

/// Prepending bytes to an archive leaves it readable: its offset grows by
/// their number, its comment stays, and its entries are the same but for
/// their offsets in the source, shifted by that number. Left out: prepended
/// bytes that fake a ZIP64 record (see [`prefix_fakes_no_zip64`]), and
/// entries whose shifted offset no longer fits in 64 bits.
pub proof fn lemma_junk_prefix(junk: Seq<u8>, s: Seq<u8>)
    requires
        parse_archive(s) is Ok,
        (junk + s).len() <= u64::MAX,
        prefix_fakes_no_zip64(junk, s),
        forall|i: int|
            0 <= i < parse_archive(s)->Ok_0.1.len() ==> #[trigger] parse_archive(s)->Ok_0.1[i].header_start
                + junk.len() <= u64::MAX,
    ensures
        parse_archive(junk + s) == Ok::<(u64, Seq<FileModel>, Seq<u8>), crate::result::ZipError>(
            (
                (parse_archive(s)->Ok_0.0 + junk.len()) as u64,
                shift_entries(parse_archive(s)->Ok_0.1, junk.len() as int),
                parse_archive(s)->Ok_0.2,
            ),
        ),
{
    let t = junk + s;
    let n = junk.len() as int;
    lemma_find_eocd(junk, s);
    let cde = find_eocd(s)->0;
    lemma_u16(junk, s, cde + 4);
    lemma_u16(junk, s, cde + 6);
    lemma_u16(junk, s, cde + 20);
    let clen = eocd_comment_len(s, cde);
    lemma_range(junk, s, cde + 22, cde + 22 + clen);
    assert(eocd_fits(t, cde + n));
    lemma_directory_counts(junk, s);
    let (archive_offset, directory_start, count) = directory_counts(s, cde)->Ok_0;
    let files = parse_entries(s, directory_start as int, count as nat, archive_offset)->Ok_0;
    assert(files == parse_archive(s)->Ok_0.1);
    assert forall|i: int| 0 <= i < files.len() implies #[trigger] files[i].header_start + n
        <= u64::MAX by {
        assert(parse_archive(s)->Ok_0.1[i] == files[i]);
    }
    lemma_parse_entries(junk, s, directory_start as int, count as nat, archive_offset);
}


/// The local header of a shifted entry is found where it was, shifted, and
/// gives the same stored bytes.
proof fn lemma_local_window(junk: Seq<u8>, s: Seq<u8>, f: FileModel)
    requires
        (junk + s).len() + 0x2_0100 <= u64::MAX,
        f.header_start + junk.len() <= u64::MAX,
    ensures
        match local_window(s, f) {
            Ok((data_start, window)) => local_window(junk + s, shift_entry(f, junk.len() as int))
                == Ok::<(u64, Seq<u8>), crate::result::ZipError>(
                ((data_start + junk.len()) as u64, window),
            ),
            Err(e) => local_window(junk + s, shift_entry(f, junk.len() as int)) == Err::<
                (u64, Seq<u8>),
                crate::result::ZipError,
            >(e),
        },
{
    let t = junk + s;
    let n = junk.len() as int;
    let h = f.header_start as int;
    if h + 4 <= s.len() {
        lemma_u32(junk, s, h);
        if h + 30 <= s.len() {
            lemma_u16(junk, s, h + 26);
            lemma_u16(junk, s, h + 28);
            let data_start = h + 30 + u16_le(s, h + 26) + u16_le(s, h + 28);
            let a = min_int(data_start, s.len() as int);
            let b = min_int(data_start + f.compressed_size, s.len() as int);
            lemma_range(junk, s, a, b);
        }
    }
}

/// Behind prepended bytes an entry opens as it did in the archive alone:
/// opening the shifted entry gives the same plain bytes (and so the same
/// output and check), the same wrong-password outcome, or the same error.
pub proof fn lemma_junk_prefix_reads(
    junk: Seq<u8>,
    s: Seq<u8>,
    f: FileModel,
    password: Option<Seq<u8>>,
)
    requires
        (junk + s).len() + 0x2_0100 <= u64::MAX,
        f.header_start + junk.len() <= u64::MAX,
    ensures
        open_outcome(junk + s, shift_entry(f, junk.len() as int), password) == open_outcome(
            s,
            f,
            password,
        ),
{
    lemma_local_window(junk, s, f);
}

/// Prepending bytes to an archive keeps every entry readable with the same
/// contents: entry `i` of the joined bytes opens as entry `i` of the archive
/// alone did (same exclusions as [`lemma_junk_prefix`]).
pub proof fn lemma_junk_prefix_entries_read(
    junk: Seq<u8>,
    s: Seq<u8>,
    i: int,
    password: Option<Seq<u8>>,
)
    requires
        parse_archive(s) is Ok,
        (junk + s).len() + 0x2_0100 <= u64::MAX,
        prefix_fakes_no_zip64(junk, s),
        forall|k: int|
            0 <= k < parse_archive(s)->Ok_0.1.len() ==> #[trigger] parse_archive(s)->Ok_0.1[k].header_start
                + junk.len() <= u64::MAX,
        0 <= i < parse_archive(s)->Ok_0.1.len(),
    ensures
        parse_archive(junk + s) is Ok,
        parse_archive(junk + s)->Ok_0.1.len() == parse_archive(s)->Ok_0.1.len(),
        open_outcome(junk + s, parse_archive(junk + s)->Ok_0.1[i], password) == open_outcome(
            s,
            parse_archive(s)->Ok_0.1[i],
            password,
        ),
{
    lemma_junk_prefix(junk, s);
    let files = parse_archive(s)->Ok_0.1;
    assert(parse_archive(junk + s)->Ok_0.1[i] == shift_entry(files[i], junk.len() as int));
    lemma_junk_prefix_reads(junk, s, files[i], password);
}

} // verus!
