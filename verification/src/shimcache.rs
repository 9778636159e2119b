//! The shimcache collector: parses the binary `AppCompatCache` registry
//! value for execution evidence, dispatching on the format signature.
//! Reading the registry happens outside the library; the parser works on
//! the raw value bytes.

use vstd::prelude::*;
use vstd::string::StringExecFns;
use crate::forensic_types::{ShimcacheEntry, AuditEntry};
use crate::strutil::{
    str_bytes, le16, le32, le64, read_le16, read_le32, read_le64, contains_seq_ci, str_contains_ci,
};
use crate::wellformed::is_rfc3339;
use crate::wrappers::{
    now_rfc3339, unix_secs_to_rfc3339, rfc3339_of_unix, utf16_to_string, utf16_decode,
};
use crate::sortutil::{lex_le, sort_keyed_desc, keys_sorted_desc};

verus! {

/// Seconds between the Windows epoch (1601) and the Unix epoch (1970).
pub const FILETIME_EPOCH_DIFF: u64 = 11644473600;

/// 100-nanosecond intervals per second.
pub const FILETIME_UNITS_PER_SEC: u64 = 10000000;

/// The Unix seconds a FILETIME denotes, clamped at the Unix epoch.
pub open spec fn spec_filetime_unix(ft: u64) -> int {
    if ft / 10000000 >= 11644473600 {
        ft / 10000000 - 11644473600
    } else {
        0
    }
}

/// The rendered form of a FILETIME field: `Not set` for zero,
/// `Invalid timestamp` past the four-digit-year range, and the RFC 3339
/// rendering otherwise.
pub open spec fn spec_filetime_rendered(ft: u64) -> Seq<char> {
    if ft == 0 {
        "Not set"@
    } else if spec_filetime_unix(ft) > 253402300799 {
        "Invalid timestamp"@
    } else {
        rfc3339_of_unix(spec_filetime_unix(ft))->Some_0
    }
}

/// Renders a FILETIME as RFC 3339: `Not set` for zero, and
/// `Invalid timestamp` for instants past the four-digit-year range.
pub fn filetime_to_string(filetime: u64) -> (r: String)
    ensures
        r@ == spec_filetime_rendered(filetime),
        filetime == 0 ==> r@ == "Not set"@,
        filetime != 0 && spec_filetime_unix(filetime) > 253402300799 ==> r@
            == "Invalid timestamp"@,
        filetime != 0 && spec_filetime_unix(filetime) <= 253402300799 ==> (Some(r@)
            == rfc3339_of_unix(spec_filetime_unix(filetime)) && is_rfc3339(str_bytes(r@))),
{
    if filetime == 0 {
        return "Not set".to_owned();
    }
    let secs = filetime / FILETIME_UNITS_PER_SEC;
    let unix = if secs >= FILETIME_EPOCH_DIFF {
        secs - FILETIME_EPOCH_DIFF
    } else {
        0
    };
    proof {
        assert(unix == spec_filetime_unix(filetime));
    }
    if unix > 253402300799u64 {
        return "Invalid timestamp".to_owned();
    }
    match unix_secs_to_rfc3339(unix as i64) {
        Some(t) => t,
        None => "Invalid timestamp".to_owned(),
    }
}

/// The little-endian UTF-16 code units of a byte region, up to the first
/// NUL or an odd tail.
pub open spec fn spec_utf16_units(b: Seq<u8>) -> Seq<u16>
    decreases b.len(),
{
    if b.len() < 2 {
        Seq::empty()
    } else if le16(b, 0) == 0 {
        Seq::empty()
    } else {
        seq![le16(b, 0) as u16] + spec_utf16_units(b.skip(2))
    }
}

/// The text a UTF-16 byte region decodes to, with a fixed fallback on
/// malformed input.
pub open spec fn spec_utf16_text(b: Seq<u8>) -> Seq<char> {
    match utf16_decode(spec_utf16_units(b)) {
        Some(s) => s,
        None => "Invalid UTF-16"@,
    }
}

/// Decodes the little-endian UTF-16 code units up to the first NUL.
pub fn parse_utf16_units(data: &[u8]) -> (r: Vec<u16>)
    ensures
        r@ == spec_utf16_units(data@),
        forall|i: int| 0 <= i < r@.len() ==> #[trigger] r@[i] != 0,
{
    let mut units: Vec<u16> = Vec::new();
    let n = data.len();
    let mut i: usize = 0;
    proof {
        assert(data@.skip(0) =~= data@);
    }
    while i < n && n - i >= 2
        invariant
            n == data@.len(),
            i <= n,
            forall|k: int| 0 <= k < units@.len() ==> #[trigger] units@[k] != 0,
            spec_utf16_units(data@) == units@ + spec_utf16_units(data@.skip(i as int)),
        decreases n - i,
    {
        let u = read_le16(data, i);
        proof {
            assert(data@.skip(i as int)[0] == data@[i as int]);
            assert(data@.skip(i as int)[1] == data@[i + 1]);
            assert(le16(data@.skip(i as int), 0) == le16(data@, i as int));
        }
        if u == 0 {
            proof {
                assert(spec_utf16_units(data@.skip(i as int)) =~= Seq::<u16>::empty());
                assert(units@ =~= spec_utf16_units(data@));
            }
            return units;
        }
        units.push(u);
        proof {
            assert(data@.skip(i as int).skip(2) =~= data@.skip(i + 2));
            assert(spec_utf16_units(data@.skip(i as int)) =~= seq![u] + spec_utf16_units(
                data@.skip(i + 2),
            ));
            assert(units@ + spec_utf16_units(data@.skip(i + 2)) =~= spec_utf16_units(data@));
        }
        i = i + 2;
    }
    proof {
        assert(spec_utf16_units(data@.skip(i as int)) =~= Seq::<u16>::empty());
        assert(units@ =~= spec_utf16_units(data@));
    }
    units
}

/// Decodes a UTF-16 byte region to text, with a fixed fallback on
/// malformed input.
pub fn parse_utf16_string(data: &[u8]) -> (r: String)
    ensures
        r@ == spec_utf16_text(data@),
{
    let units = parse_utf16_units(data);
    match utf16_to_string(units.as_slice()) {
        Some(s) => s,
        None => "Invalid UTF-16".to_owned(),
    }
}

/// One decoded entry and the bytes it occupied.
pub struct ParsedEntry {
    pub entry: ShimcacheEntry,
    pub size: usize,
}

/// Parses one Windows-10/11 format entry: path length and offset words,
/// file size at 8, and the two FILETIME fields at 16 and 24.
pub fn parse_windows10_entry(data: &[u8]) -> (r: Option<ParsedEntry>)
    ensures
        r matches Some(p) ==> p.entry.file_size == le64(data@, 8) && p.entry.execution_flag
            == true && p.size == 32 + le16(data@, 0),
        r matches Some(p) ==> ({
            let plen = le16(data@, 0);
            let poff = le16(data@, 2);
            &&& p.entry.path@ == (if poff + plen <= data@.len() {
                spec_utf16_text(data@.subrange(poff, poff + plen))
            } else {
                "Unknown path"@
            })
            &&& p.entry.last_modified@ == spec_filetime_rendered((le64(data@, 16) as u64))
            &&& p.entry.last_update@ == spec_filetime_rendered((le64(data@, 24) as u64))
        }),
        r is Some <==> data@.len() >= 32,
{
    if data.len() < 32 {
        return None;
    }
    let path_length = read_le16(data, 0) as usize;
    let path_offset = read_le16(data, 2) as usize;
    let file_size = read_le64(data, 8);
    let last_modified_raw = read_le64(data, 16);
    let last_update_raw = read_le64(data, 24);
    let path = if path_offset + path_length <= data.len() && path_offset <= data.len() {
        let region = &data[path_offset..path_offset + path_length];
        proof {
            assert(region@ =~= data@.subrange(
                path_offset as int,
                path_offset + path_length as int,
            ));
        }
        parse_utf16_string(region)
    } else {
        "Unknown path".to_owned()
    };
    let last_modified = filetime_to_string(last_modified_raw);
    let last_update = filetime_to_string(last_update_raw);
    Some(
        ParsedEntry {
            entry: ShimcacheEntry {
                path,
                last_modified,
                file_size,
                last_update,
                execution_flag: true,
            },
            size: 32 + path_length,
        },
    )
}

/// A placeholder entry for the Windows-8.1 format, whose full layout the
/// parser does not decode.
pub fn parse_windows8_entry() -> (r: ParsedEntry)
    ensures
        r.entry.file_size == 0,
        r.entry.execution_flag == false,
        r.size == 32,
{
    ParsedEntry {
        entry: ShimcacheEntry {
            path: "Windows 8 entry (parsing not fully implemented)".to_owned(),
            last_modified: now_rfc3339(),
            file_size: 0,
            last_update: now_rfc3339(),
            execution_flag: false,
        },
        size: 32,
    }
}

/// A placeholder entry for the Windows-7 format, whose full layout the
/// parser does not decode.
pub fn parse_windows7_entry() -> (r: ParsedEntry)
    ensures
        r.entry.file_size == 0,
        r.entry.execution_flag == false,
        r.size == 32,
{
    ParsedEntry {
        entry: ShimcacheEntry {
            path: "Windows 7 entry (parsing not fully implemented)".to_owned(),
            last_modified: now_rfc3339(),
            file_size: 0,
            last_update: now_rfc3339(),
            execution_flag: false,
        },
        size: 32,
    }
}

/// The header signatures the parser accepts.
pub open spec fn spec_valid_signature(sig: u32) -> bool {
    sig == 0x30 || sig == 0x34 || sig == 0x38 || sig == 0x80 || sig == 0x73 || sig == 0x74 || sig
        == 0x72 || sig == 0x6f
}

/// Whether the signature selects the Windows-10/11 entry format.
pub open spec fn spec_win10_signature(sig: u32) -> bool {
    sig == 0x30 || sig == 0x34 || sig == 0x38
}

/// The number of entries the cap allows.
pub open spec fn spec_cap(data: Seq<u8>) -> int {
    if le32(data, 4) < 1000 {
        le32(data, 4)
    } else {
        1000
    }
}

/// The byte step of the entry at `off`: the fixed 32 bytes plus, for the
/// Windows-10 format, the path length word.
pub open spec fn sc_step(data: Seq<u8>, off: int, win10: bool) -> int {
    if win10 {
        32 + le16(data, off)
    } else {
        32
    }
}

/// How many entries decode from `off` with `budget` entries allowed:
/// stops at the cap, at a truncated entry, or at a step past the end.
pub open spec fn sc_count(data: Seq<u8>, off: int, budget: int, win10: bool) -> int
    decreases budget,
{
    if budget <= 0 || off >= data.len() || data.len() - off < 32 {
        0
    } else if sc_step(data, off, win10) > data.len() - off {
        1
    } else {
        1 + sc_count(data, off + sc_step(data, off, win10), budget - 1, win10)
    }
}

/// The offset of entry `t`.
pub open spec fn sc_off(data: Seq<u8>, t: int, win10: bool) -> int
    decreases t,
{
    if t <= 0 {
        16
    } else {
        sc_off(data, t - 1, win10) + sc_step(data, sc_off(data, t - 1, win10), win10)
    }
}

/// Parses the `AppCompatCache` value: checks the signature word, then
/// decodes the entry stream from offset 16, at most 1000 entries and no
/// more than the header's count, stopping at a truncated entry.
#[verifier::rlimit(100)]
pub fn parse_shimcache_data(data: &[u8]) -> (r: Result<Vec<ShimcacheEntry>, String>)
    ensures
        data@.len() < 16 ==> (r matches Err(e) && e@ == "Shimcache data too small"@),
        data@.len() >= 16 && !spec_valid_signature(le32(data@, 0) as u32) ==> (r matches Err(e)
            && e@ == "Invalid shimcache signature"@),
        data@.len() >= 16 && spec_valid_signature(le32(data@, 0) as u32) ==> (r matches Ok(v) && ({
            let w = spec_win10_signature(le32(data@, 0) as u32);
            &&& v@.len() == sc_count(data@, 16, spec_cap(data@), w)
            &&& v@.len() <= 1000
            &&& v@.len() <= le32(data@, 4)
            &&& forall|t: int|
                0 <= t < v@.len() ==> (#[trigger] v@[t]).file_size == (if w {
                    le64(data@, sc_off(data@, t, w) + 8) as u64
                } else {
                    0u64
                }) && v@[t].execution_flag == w
        })),
{
    if data.len() < 16 {
        return Err("Shimcache data too small".to_owned());
    }
    let header_signature = read_le32(data, 0);
    let num_entries = read_le32(data, 4);
    let valid = header_signature == 0x30 || header_signature == 0x34 || header_signature == 0x38
        || header_signature == 0x80 || header_signature == 0x73 || header_signature == 0x74
        || header_signature == 0x72 || header_signature == 0x6f;
    if !valid {
        return Err("Invalid shimcache signature".to_owned());
    }
    let win10 = header_signature == 0x30 || header_signature == 0x34 || header_signature == 0x38;
    let ghost w = spec_win10_signature(le32(data@, 0) as u32);
    let cap: u32 = if num_entries < 1000 {
        num_entries
    } else {
        1000
    };
    let mut entries: Vec<ShimcacheEntry> = Vec::new();
    let mut offset: usize = 16;
    let mut i: u32 = 0;
    while i < cap
        invariant
            data@.len() >= 16,
            spec_valid_signature(le32(data@, 0) as u32),
            w == spec_win10_signature(le32(data@, 0) as u32),
            win10 == w,
            offset <= data@.len(),
            cap <= 1000,
            cap == spec_cap(data@),
            entries@.len() == i,
            i <= cap,
            offset == sc_off(data@, i as int, w),
            sc_count(data@, 16, cap as int, w) == i + sc_count(
                data@,
                offset as int,
                cap - i,
                w,
            ),
            forall|t: int|
                0 <= t < entries@.len() ==> (#[trigger] entries@[t]).file_size == (if w {
                    le64(data@, sc_off(data@, t, w) + 8) as u64
                } else {
                    0u64
                }) && entries@[t].execution_flag == w,
        decreases cap - i,
    {
        if offset >= data.len() || data.len() - offset < 32 {
            proof {
                assert(sc_count(data@, offset as int, cap - i, w) == 0);
            }
            return Ok(entries);
        }
        let region = &data[offset..data.len()];
        proof {
            assert(region@ =~= data@.subrange(offset as int, data@.len() as int));
            assert(le16(region@, 0) == le16(data@, offset as int));
            assert(le64(region@, 8) == le64(data@, offset as int + 8));
        }
        let step: usize;
        let ghost pre = entries@;
        if win10 {
            match parse_windows10_entry(region) {
                Some(p) => {
                    entries.push(p.entry);
                    step = p.size;
                },
                None => {
                    proof {
                        assert(false);
                    }
                    return Ok(entries);
                },
            }
        } else {
            let p = parse_windows8_or_7_entry(win10_label(header_signature));
            entries.push(p.entry);
            step = p.size;
        }
        proof {
            assert(step == sc_step(data@, offset as int, w));
            assert forall|t: int| 0 <= t < entries@.len() implies (#[trigger] entries@[t]).file_size
                == (if w {
                le64(data@, sc_off(data@, t, w) + 8) as u64
            } else {
                0u64
            }) && entries@[t].execution_flag == w by {
                if t < pre.len() {
                    assert(entries@[t] == pre[t]);
                } else {
                    assert(entries@[t] == entries@.last());
                }
            }
        }
        if step > data.len() - offset {
            proof {
                assert(sc_count(data@, offset as int, cap - i, w) == 1);
            }
            return Ok(entries);
        }
        proof {
            assert(sc_count(data@, offset as int, cap - i, w) == 1 + sc_count(
                data@,
                offset as int + step,
                cap - i - 1,
                w,
            ));
            assert(sc_off(data@, i + 1, w) == sc_off(data@, i as int, w) + sc_step(
                data@,
                sc_off(data@, i as int, w),
                w,
            ));
        }
        offset = offset + step;
        i = i + 1;
    }
    proof {
        assert(sc_count(data@, offset as int, 0, w) == 0);
    }
    Ok(entries)
}

/// Whether the older format is the Windows-8.1 one, by signature.
fn win10_label(sig: u32) -> (r: bool) {
    sig == 0x80 || sig == 0x73 || sig == 0x74
}

/// A placeholder entry for the Windows-8.1 or Windows-7 formats, whose
/// full layouts the parser does not decode.
fn parse_windows8_or_7_entry(win8: bool) -> (r: ParsedEntry)
    ensures
        r.entry.file_size == 0,
        r.entry.execution_flag == false,
        r.size == 32,
{
    if win8 {
        parse_windows8_entry()
    } else {
        parse_windows7_entry()
    }
}

/// What one `AppCompatCache` blob yields: nothing for a short or
/// unrecognized value, the decoded entry stream otherwise.
pub open spec fn spec_blob_count(bytes: Seq<u8>) -> int {
    if bytes.len() < 16 {
        0
    } else if !spec_valid_signature(le32(bytes, 0) as u32) {
        0
    } else {
        sc_count(bytes, 16, spec_cap(bytes), spec_win10_signature(le32(bytes, 0) as u32))
    }
}

/// The summed yield of the blobs.
pub open spec fn spec_blobs_total(blobs: Seq<(String, Vec<u8>)>) -> int
    decreases blobs.len(),
{
    if blobs.len() == 0 {
        0
    } else {
        spec_blobs_total(blobs.drop_last()) + spec_blob_count(blobs.last().1@)
    }
}

/// Parses every supplied `AppCompatCache` blob, concatenating what each
/// yields, with an audit trail.
pub fn collect_shimcache_entries(blobs: Vec<(String, Vec<u8>)>) -> (r: (
    Vec<ShimcacheEntry>,
    Vec<AuditEntry>,
))
    ensures
        r.0@.len() == spec_blobs_total(blobs@),
        r.1@.len() >= 2,
{
    let mut audit: Vec<AuditEntry> = Vec::new();
    audit.push(
        AuditEntry {
            timestamp: now_rfc3339(),
            level: "INFO".to_owned(),
            component: "shimcache".to_owned(),
            action: "start_collection".to_owned(),
            details: "Starting Shimcache analysis".to_owned(),
            duration_ms: None,
            result: "started".to_owned(),
        },
    );
    let mut entries: Vec<ShimcacheEntry> = Vec::new();
    let ghost blobs_all = blobs@;
    let mut rest = blobs;
    while rest.len() > 0
        invariant
            audit@.len() >= 1,
            rest@.len() <= blobs_all.len(),
            rest@ == blobs_all.skip(blobs_all.len() - rest@.len()),
            entries@.len() == spec_blobs_total(blobs_all.take(blobs_all.len() - rest@.len())),
        decreases rest@.len(),
    {
        let ghost t: int = blobs_all.len() - rest@.len();
        let (key_path, bytes) = rest.remove(0);
        proof {
            assert(blobs_all.skip(t).drop_first() =~= blobs_all.skip(t + 1));
            assert(rest@ =~= blobs_all.skip(t + 1));
            assert(blobs_all.take(t + 1).drop_last() =~= blobs_all.take(t));
            assert(blobs_all.take(t + 1).last() == blobs_all[t]);
        }
        match parse_shimcache_data(bytes.as_slice()) {
            Ok(mut found) => {
                entries.append(&mut found);
                audit.push(
                    AuditEntry {
                        timestamp: now_rfc3339(),
                        level: "DEBUG".to_owned(),
                        component: "shimcache".to_owned(),
                        action: "parse_cache_data".to_owned(),
                        details: key_path,
                        duration_ms: None,
                        result: "success".to_owned(),
                    },
                );
            },
            Err(e) => {
                audit.push(
                    AuditEntry {
                        timestamp: now_rfc3339(),
                        level: "WARN".to_owned(),
                        component: "shimcache".to_owned(),
                        action: "parse_cache_data".to_owned(),
                        details: e,
                        duration_ms: None,
                        result: "error".to_owned(),
                    },
                );
            },
        }
    }
    proof {
        assert(blobs_all.take(blobs_all.len() as int) =~= blobs_all);
    }
    audit.push(
        AuditEntry {
            timestamp: now_rfc3339(),
            level: "INFO".to_owned(),
            component: "shimcache".to_owned(),
            action: "complete_collection".to_owned(),
            details: "Shimcache collection completed".to_owned(),
            duration_ms: None,
            result: "success".to_owned(),
        },
    );
    (entries, audit)
}

/// Counts per category over a shimcache collection.
#[derive(Debug, Clone)]
pub struct ShimcacheStatistics {
    pub total_entries: usize,
    pub executed_programs: usize,
    pub not_executed_programs: usize,
    pub exe_files: usize,
    pub dll_files: usize,
    pub sys_files: usize,
    pub other_files: usize,
}

/// Counts entries, execution flags, and files per extension category.
pub fn get_shimcache_statistics(shimcache_entries: &[ShimcacheEntry]) -> (r: ShimcacheStatistics)
    ensures
        r.total_entries == shimcache_entries@.len(),
        r.executed_programs + r.not_executed_programs == r.total_entries,
        r.exe_files + r.dll_files + r.sys_files + r.other_files == r.total_entries,
{
    let n = shimcache_entries.len();
    let mut executed: usize = 0;
    let mut exe_files: usize = 0;
    let mut dll_files: usize = 0;
    let mut sys_files: usize = 0;
    let mut other_files: usize = 0;
    for i in 0..n
        invariant
            n == shimcache_entries@.len(),
            executed <= i,
            exe_files + dll_files + sys_files + other_files == i,
    {
        if shimcache_entries[i].execution_flag {
            executed = executed + 1;
        }
        let p = shimcache_entries[i].path.as_str();
        if crate::strutil::str_ends_with_ci(p, ".exe") {
            exe_files = exe_files + 1;
        } else if crate::strutil::str_ends_with_ci(p, ".dll") {
            dll_files = dll_files + 1;
        } else if crate::strutil::str_ends_with_ci(p, ".sys") {
            sys_files = sys_files + 1;
        } else {
            other_files = other_files + 1;
        }
    }
    ShimcacheStatistics {
        total_entries: n,
        executed_programs: executed,
        not_executed_programs: n - executed,
        exe_files,
        dll_files,
        sys_files,
        other_files,
    }
}

/// The entries of `s` whose path contains `pat`, up to ASCII case, in
/// order.
pub open spec fn sc_matching(s: Seq<ShimcacheEntry>, pat: Seq<char>) -> Seq<ShimcacheEntry>
    decreases s.len(),
{
    if s.len() == 0 {
        Seq::empty()
    } else if contains_seq_ci(str_bytes(s.last().path@), str_bytes(pat)) {
        sc_matching(s.drop_last(), pat).push(s.last())
    } else {
        sc_matching(s.drop_last(), pat)
    }
}

/// The entries whose path contains the given text, up to ASCII case, in
/// order.
pub fn find_shimcache_by_path<'a>(shimcache_entries: &'a [ShimcacheEntry], search_path: &str) -> (r:
    Vec<&'a ShimcacheEntry>)
    ensures
        r@.map_values(|e: &ShimcacheEntry| *e) == sc_matching(shimcache_entries@, search_path@),
{
    let mut out: Vec<&'a ShimcacheEntry> = Vec::new();
    let n = shimcache_entries.len();
    for i in 0..n
        invariant
            n == shimcache_entries@.len(),
            out@.map_values(|e: &ShimcacheEntry| *e) =~= sc_matching(
                shimcache_entries@.take(i as int),
                search_path@,
            ),
    {
        proof {
            assert(shimcache_entries@.take(i + 1).drop_last() =~= shimcache_entries@.take(
                i as int,
            ));
            assert(shimcache_entries@.take(i + 1).last() == shimcache_entries@[i as int]);
        }
        if str_contains_ci(shimcache_entries[i].path.as_str(), search_path) {
            out.push(&shimcache_entries[i]);
        }
        assert(out@.map_values(|e: &ShimcacheEntry| *e) =~= sc_matching(
            shimcache_entries@.take(i + 1),
            search_path@,
        ));
    }
    assert(shimcache_entries@.take(n as int) =~= shimcache_entries@);
    out
}

/// The `limit` most recently modified entries, newest-first by the
/// last-modified timestamp.
pub fn get_recently_modified_entries<'a>(shimcache_entries: &'a [ShimcacheEntry], limit: usize)
    -> (r: Vec<&'a ShimcacheEntry>)
    ensures
        r@.len() <= limit,
        forall|i: int, j: int|
            0 <= i <= j < r@.len() ==> lex_le(
                str_bytes((#[trigger] r@[j]).last_modified@),
                str_bytes((#[trigger] r@[i]).last_modified@),
            ),
{
    let mut pairs: Vec<(Vec<u8>, &'a ShimcacheEntry)> = Vec::new();
    let n = shimcache_entries.len();
    for i in 0..n
        invariant
            n == shimcache_entries@.len(),
            forall|k: int|
                0 <= k < pairs@.len() ==> (#[trigger] pairs@[k]).0@ == str_bytes(
                    pairs@[k].1.last_modified@,
                ),
    {
        let mut key: Vec<u8> = Vec::new();
        key.extend_from_slice(shimcache_entries[i].last_modified.as_str().as_bytes());
        let ghost pre = pairs@;
        pairs.push((key, &shimcache_entries[i]));
        proof {
            assert forall|k: int| 0 <= k < pairs@.len() implies (#[trigger] pairs@[k]).0@
                == str_bytes(pairs@[k].1.last_modified@) by {
                if k < pre.len() {
                    assert(pairs@[k] == pre[k]);
                } else {
                    assert(pairs@[k] == pairs@.last());
                }
            }
        }
    }
    let ghost built = pairs@;
    let mut sorted = sort_keyed_desc(pairs);
    let ghost sorted_all = sorted@;
    proof {
        broadcast use vstd::seq_lib::group_to_multiset_ensures;

        assert forall|k: int| 0 <= k < sorted_all.len() implies (#[trigger] sorted_all[k]).0@
            == str_bytes(sorted_all[k].1.last_modified@) by {
            assert(sorted_all.to_multiset().contains(sorted_all[k]));
            assert(built.to_multiset().contains(sorted_all[k]));
            assert(built.contains(sorted_all[k]));
            let j = choose|j: int| 0 <= j < built.len() && built[j] == sorted_all[k];
            assert(built[j].0@ == str_bytes(built[j].1.last_modified@));
        }
    }
    let mut out: Vec<&'a ShimcacheEntry> = Vec::new();
    while sorted.len() > 0 && out.len() < limit
        invariant
            out@.len() + sorted@.len() == sorted_all.len(),
            out@.len() <= limit,
            sorted@ == sorted_all.skip(out@.len() as int),
            keys_sorted_desc(sorted_all),
            forall|k: int|
                0 <= k < sorted_all.len() ==> (#[trigger] sorted_all[k]).0@ == str_bytes(
                    sorted_all[k].1.last_modified@,
                ),
            forall|k: int| 0 <= k < out@.len() ==> #[trigger] out@[k] == sorted_all[k].1,
        decreases sorted@.len(),
    {
        let (_, e) = sorted.remove(0);
        out.push(e);
        proof {
            assert(sorted@ =~= sorted_all.skip(out@.len() as int));
        }
    }
    proof {
        assert forall|i: int, j: int| 0 <= i <= j < out@.len() implies lex_le(
            str_bytes((#[trigger] out@[j]).last_modified@),
            str_bytes((#[trigger] out@[i]).last_modified@),
        ) by {
            assert(out@[i] == sorted_all[i].1 && out@[j] == sorted_all[j].1);
            assert(lex_le(sorted_all[j].0@, sorted_all[i].0@));
        }
    }
    out
}

/// The entries of `s` whose execution flag is set, in order.
pub open spec fn executed_entries(s: Seq<ShimcacheEntry>) -> Seq<ShimcacheEntry>
    decreases s.len(),
{
    if s.len() == 0 {
        Seq::empty()
    } else if s.last().execution_flag {
        executed_entries(s.drop_last()).push(s.last())
    } else {
        executed_entries(s.drop_last())
    }
}

/// The entries whose execution flag is set, in order.
pub fn get_executed_programs<'a>(shimcache_entries: &'a [ShimcacheEntry]) -> (r: Vec<
    &'a ShimcacheEntry,
>)
    ensures
        r@.map_values(|e: &ShimcacheEntry| *e) == executed_entries(shimcache_entries@),
{
    let mut out: Vec<&'a ShimcacheEntry> = Vec::new();
    let n = shimcache_entries.len();
    for i in 0..n
        invariant
            n == shimcache_entries@.len(),
            out@.map_values(|e: &ShimcacheEntry| *e) =~= executed_entries(
                shimcache_entries@.take(i as int),
            ),
    {
        proof {
            assert(shimcache_entries@.take(i + 1).drop_last() =~= shimcache_entries@.take(
                i as int,
            ));
            assert(shimcache_entries@.take(i + 1).last() == shimcache_entries@[i as int]);
        }
        if shimcache_entries[i].execution_flag {
            out.push(&shimcache_entries[i]);
        }
        assert(out@.map_values(|e: &ShimcacheEntry| *e) =~= executed_entries(
            shimcache_entries@.take(i + 1),
        ));
    }
    assert(shimcache_entries@.take(n as int) =~= shimcache_entries@);
    out
}

} // verus!
