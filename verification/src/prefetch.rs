//! The prefetch collector: parses `.pf` files for evidence of execution
//! and hashes each one for integrity.  Walking the prefetch directory and
//! reading the files happens outside the library; the parser works on the
//! raw bytes.

use vstd::prelude::*;
use vstd::string::StringExecFns;
use crate::forensic_types::{PrefetchFile, VolumeInfo, AuditEntry};
use crate::strutil::{
    str_bytes, le32, read_le32, contains_seq, contains_bytes, find_byte, str_chars,
    chars_to_string, lemma_str_bytes_valid, lemma_ascii_boundary, str_slice, str_ends_with_ci,
    lower_bytes, ends_with_seq, be4_of, be4, lemma_be4_le, contains_seq_ci, str_contains_ci,
};
use crate::wellformed::{hex_str, is_lower_hex_chars, lemma_hex_str_shape, is_rfc3339};
use crate::wrappers::{sha256_digest, hex_lower, sha256_of, now_rfc3339, unix_secs_to_rfc3339};
use crate::sortutil::{lex_le, sort_keyed, keys_sorted, sort_keyed_desc, keys_sorted_desc};

verus! {

/// One prefetch file as read from disk: its name, raw contents, and the
/// creation time the filesystem reports, in Unix seconds.
#[derive(Debug, Clone)]
pub struct RawPrefetchFile {
    pub filename: String,
    pub data: Vec<u8>,
    pub created_unix: Option<i64>,
}

/// The format version: the little-endian word at offset 0, or 0 for a
/// file shorter than 4 bytes.
pub open spec fn spec_pf_version(data: Seq<u8>) -> int {
    if data.len() >= 4 {
        le32(data, 0)
    } else {
        0
    }
}

/// The run count: the little-endian word at offset 12, or 1 for a file
/// shorter than 16 bytes.
pub open spec fn spec_pf_run_count(data: Seq<u8>) -> int {
    if data.len() >= 16 {
        le32(data, 12)
    } else {
        1
    }
}

/// Reads the run count from the fixed offset.
pub fn extract_run_count(data: &[u8]) -> (r: u32)
    ensures
        r == spec_pf_run_count(data@),
{
    if data.len() >= 16 {
        read_le32(data, 12)
    } else {
        1
    }
}

/// Index of the first dash byte, if any.
pub open spec fn first_dash(b: Seq<u8>) -> Option<int> {
    if exists|i: int| 0 <= i < b.len() && b[i] == 0x2d {
        let i = choose|i: int|
            0 <= i < b.len() && b[i] == 0x2d && forall|k: int| 0 <= k < i ==> b[k] != 0x2d;
        Some(i)
    } else {
        None
    }
}

/// Derives the executable name from the prefetch filename: the part
/// before the first dash, or, without a dash, the name with a trailing
/// `.pf` (case-insensitively) dropped.
pub fn extract_executable_name(filename: &str) -> (r: String)
    ensures
        ({
            let nb = str_bytes(filename@);
            match first_dash(nb) {
                Some(i) => str_bytes(r@) == nb.subrange(0, i),
                None => if ends_with_seq(lower_bytes(nb), lower_bytes(str_bytes(".pf"@))) {
                    str_bytes(r@) == nb.subrange(0, nb.len() - 3)
                } else {
                    r@ == filename@
                },
            }
        }),
{
    proof {
        lemma_str_bytes_valid(filename@);
    }
    let bytes = filename.as_bytes();
    match find_byte(bytes, 0x2d) {
        Some(i) => {
            proof {
                assert(first_dash(str_bytes(filename@)) == Some(i as int));
                assert(vstd::utf8::is_char_boundary(str_bytes(filename@), 0));
                lemma_ascii_boundary(str_bytes(filename@), i as int);
            }
            let head = str_slice(filename, 0, i);
            head.to_owned()
        },
        None => {
            proof {
                assert(first_dash(str_bytes(filename@)) is None);
            }
            if str_ends_with_ci(filename, ".pf") {
                let n = bytes.len();
                proof {
                    lemma_pf_suffix(filename@);
                    assert(vstd::utf8::is_char_boundary(str_bytes(filename@), 0));
                    lemma_ascii_boundary(str_bytes(filename@), n - 3);
                }
                let head = str_slice(filename, 0, n - 3);
                head.to_owned()
            } else {
                filename.to_owned()
            }
        },
    }
}

/// A name whose lower-cased bytes end in `.pf` has at least three bytes,
/// and the byte three from the end is the ASCII dot.
proof fn lemma_pf_suffix(name: Seq<char>)
    requires
        ends_with_seq(lower_bytes(str_bytes(name)), lower_bytes(str_bytes(".pf"@))),
    ensures
        str_bytes(name).len() >= 3,
        str_bytes(name)[str_bytes(name).len() - 3] < 0x80,
{
    reveal_strlit(".pf");
    assert(".pf"@ =~= seq!['.', 'p', 'f']);
    let pf = str_bytes(".pf"@);
    assert(vstd::utf8::is_ascii_chars(".pf"@));
    vstd::utf8::is_ascii_chars_encode_utf8(".pf"@);
    assert(pf.len() == 3 && pf[0] == 0x2e);
    let nb = str_bytes(name);
    let lo = lower_bytes(nb);
    assert(lo.len() == nb.len());
    assert(lo.subrange(lo.len() - 3, lo.len() as int)[0] == lo[lo.len() - 3]);
    assert(lower_bytes(pf)[0] == crate::strutil::ascii_lower(0x2e));
    assert(lo[lo.len() - 3] == 0x2e);
    assert(crate::strutil::ascii_lower(nb[nb.len() - 3]) == 0x2e);
    assert(nb[nb.len() - 3] == 0x2e);
}

/// The referenced-files placeholder list: one canonical path per file
/// pattern the raw bytes mention, and a fixed note when none occurs.
pub open spec fn spec_pf_referenced(data: Seq<u8>) -> Seq<Seq<char>> {
    let pats = pf_pattern_list(data);
    if pats.len() == 0 {
        seq!["No referenced files found"@]
    } else {
        pats
    }
}

/// The canonical entries for the patterns present in `data`, in the fixed
/// pattern order.
pub open spec fn pf_pattern_list(data: Seq<u8>) -> Seq<Seq<char>> {
    (if contains_seq(data, str_bytes(".exe"@)) {
        seq!["C:\\Windows\\System32\\example.exe"@]
    } else {
        Seq::empty()
    }) + (if contains_seq(data, str_bytes(".dll"@)) {
        seq!["C:\\Windows\\System32\\example.dll"@]
    } else {
        Seq::empty()
    }) + (if contains_seq(data, str_bytes(".sys"@)) {
        seq!["C:\\Windows\\System32\\example.sys"@]
    } else {
        Seq::empty()
    }) + (if contains_seq(data, str_bytes(".bat"@)) {
        seq!["C:\\Windows\\System32\\example.bat"@]
    } else {
        Seq::empty()
    }) + (if contains_seq(data, str_bytes(".cmd"@)) {
        seq!["C:\\Windows\\System32\\example.cmd"@]
    } else {
        Seq::empty()
    }) + (if contains_seq(data, str_bytes(".ps1"@)) {
        seq!["C:\\Windows\\System32\\example.ps1"@]
    } else {
        Seq::empty()
    })
}

/// Scans the raw bytes for well-known file-name patterns.
pub fn extract_referenced_files(data: &[u8]) -> (r: Vec<String>)
    ensures
        r.deep_view() == spec_pf_referenced(data@),
{
    let mut out: Vec<String> = Vec::new();
    if contains_bytes(data, ".exe".as_bytes()) {
        out.push("C:\\Windows\\System32\\example.exe".to_owned());
    }
    if contains_bytes(data, ".dll".as_bytes()) {
        out.push("C:\\Windows\\System32\\example.dll".to_owned());
    }
    if contains_bytes(data, ".sys".as_bytes()) {
        out.push("C:\\Windows\\System32\\example.sys".to_owned());
    }
    if contains_bytes(data, ".bat".as_bytes()) {
        out.push("C:\\Windows\\System32\\example.bat".to_owned());
    }
    if contains_bytes(data, ".cmd".as_bytes()) {
        out.push("C:\\Windows\\System32\\example.cmd".to_owned());
    }
    if contains_bytes(data, ".ps1".as_bytes()) {
        out.push("C:\\Windows\\System32\\example.ps1".to_owned());
    }
    if out.len() == 0 {
        out.push("No referenced files found".to_owned());
    }
    proof {
        assert(out.deep_view() =~= spec_pf_referenced(data@));
    }
    out
}

/// Parses one prefetch file from its raw bytes: name-derived executable,
/// fixed-offset version and run count, SHA-256 of the whole file, and the
/// placeholder reference and volume lists.
pub fn parse_prefetch_data(data: &Vec<u8>, filename: &str, created_unix: Option<i64>) -> (r:
    PrefetchFile)
    ensures
        r.filename@ == filename@,
        ({
            let nb = str_bytes(filename@);
            match first_dash(nb) {
                Some(i) => str_bytes(r.executable_name@) == nb.subrange(0, i),
                None => if ends_with_seq(lower_bytes(nb), lower_bytes(str_bytes(".pf"@))) {
                    str_bytes(r.executable_name@) == nb.subrange(0, nb.len() - 3)
                } else {
                    r.executable_name@ == filename@
                },
            }
        }),
        r.version == spec_pf_version(data@),
        r.run_count == spec_pf_run_count(data@),
        r.file_size == data@.len(),
        r.hash@ == hex_str(sha256_of(data@)),
        r.hash@.len() == 64,
        is_lower_hex_chars(r.hash@),
        r.referenced_files.deep_view() == spec_pf_referenced(data@),
        r.volumes@.len() == 1,
        data@.len() >= 24 ==> is_rfc3339(str_bytes(r.last_run_time@)),
        data@.len() < 24 ==> r.last_run_time@ == "Unknown"@,
{
    let digest = sha256_digest(data.as_slice());
    let hash = hex_lower(digest.as_slice());
    proof {
        lemma_hex_str_shape(sha256_of(data@));
    }
    let version = if data.len() >= 4 {
        read_le32(data.as_slice(), 0)
    } else {
        0
    };
    let run_count = extract_run_count(data.as_slice());
    let last_run_time = if data.len() >= 24 {
        now_rfc3339()
    } else {
        "Unknown".to_owned()
    };
    let creation_time = match created_unix {
        Some(secs) => if 0 <= secs && secs <= 253402300799i64 {
            match unix_secs_to_rfc3339(secs) {
                Some(t) => t,
                None => "Unknown".to_owned(),
            }
        } else {
            "Unknown".to_owned()
        },
        None => "Unknown".to_owned(),
    };
    let volume = VolumeInfo {
        device_path: "\\Device\\HarddiskVolume1".to_owned(),
        volume_name: "Windows".to_owned(),
        serial_number: "12345678".to_owned(),
        creation_time: now_rfc3339(),
    };
    let mut volumes: Vec<VolumeInfo> = Vec::new();
    volumes.push(volume);
    PrefetchFile {
        filename: filename.to_owned(),
        executable_name: extract_executable_name(filename),
        run_count,
        last_run_time,
        creation_time,
        file_size: data.len() as u64,
        hash,
        version,
        referenced_files: extract_referenced_files(data.as_slice()),
        volumes,
    }
}

/// Whether a filename carries the `.pf` extension, case-insensitively.
pub open spec fn spec_is_pf(name: Seq<char>) -> bool {
    ends_with_seq(lower_bytes(str_bytes(name)), lower_bytes(str_bytes(".pf"@)))
}

/// How many of the files carry the `.pf` extension.
pub open spec fn spec_pf_kept(files: Seq<RawPrefetchFile>) -> int
    decreases files.len(),
{
    if files.len() == 0 {
        0
    } else {
        spec_pf_kept(files.drop_last()) + (if spec_is_pf(files.last().filename@) {
            1int
        } else {
            0int
        })
    }
}

/// The record was parsed from one of the given files: its fixed-offset
/// fields, size and hash are functions of that file's bytes.
pub open spec fn pf_record_from(files: Seq<RawPrefetchFile>, p: PrefetchFile) -> bool {
    exists|j: int|
        0 <= j < files.len() && spec_is_pf((#[trigger] files[j]).filename@) && p.filename@
            == files[j].filename@ && p.version == spec_pf_version(files[j].data@) && p.run_count
            == spec_pf_run_count(files[j].data@) && p.file_size == files[j].data@.len() && p.hash@
            == hex_str(sha256_of(files[j].data@)) && p.referenced_files.deep_view()
            == spec_pf_referenced(files[j].data@)
}

/// Parses exactly the files with a `.pf` extension (case-insensitively),
/// sorted by filename, with an audit trail.
#[verifier::rlimit(60)]
pub fn collect_prefetch_files(files: Vec<RawPrefetchFile>) -> (r: (
    Vec<PrefetchFile>,
    Vec<AuditEntry>,
))
    ensures
        r.0@.len() == spec_pf_kept(files@),
        forall|i: int| 0 <= i < r.0@.len() ==> pf_record_from(files@, #[trigger] r.0@[i]),
        forall|i: int, j: int|
            0 <= i <= j < r.0@.len() ==> lex_le(
                str_bytes((#[trigger] r.0@[i]).filename@),
                str_bytes((#[trigger] r.0@[j]).filename@),
            ),
        forall|i: int|
            0 <= i < r.0@.len() ==> (#[trigger] r.0@[i]).hash@.len() == 64 && is_lower_hex_chars(
                r.0@[i].hash@,
            ),
        r.0@.len() <= files@.len(),
{
    let mut audit: Vec<AuditEntry> = Vec::new();
    audit.push(
        AuditEntry {
            timestamp: now_rfc3339(),
            level: "INFO".to_owned(),
            component: "prefetch".to_owned(),
            action: "start_collection".to_owned(),
            details: "Starting Prefetch file analysis".to_owned(),
            duration_ms: None,
            result: "started".to_owned(),
        },
    );
    let mut pairs: Vec<(Vec<u8>, PrefetchFile)> = Vec::new();
    let ghost files_all = files@;
    let mut rest = files;
    while rest.len() > 0
        invariant
            rest@.len() <= files_all.len(),
            rest@ == files_all.skip(files_all.len() - rest@.len()),
            pairs@.len() == spec_pf_kept(files_all.take(files_all.len() - rest@.len())),
            forall|k: int|
                0 <= k < pairs@.len() ==> pf_record_from(files_all, (#[trigger] pairs@[k]).1)
                    && pairs@[k].1.hash@.len() == 64 && is_lower_hex_chars(pairs@[k].1.hash@)
                    && pairs@[k].0@ == str_bytes(pairs@[k].1.filename@),
        decreases rest@.len(),
    {
        let ghost t: int = files_all.len() - rest@.len();
        let f = rest.remove(0);
        proof {
            assert(files_all.skip(t).drop_first() =~= files_all.skip(t + 1));
            assert(rest@ =~= files_all.skip(t + 1));
            assert(files_all.take(t + 1).drop_last() =~= files_all.take(t));
            assert(files_all.take(t + 1).last() == files_all[t]);
        }
        if str_ends_with_ci(f.filename.as_str(), ".pf") {
            let parsed = parse_prefetch_data(&f.data, f.filename.as_str(), f.created_unix);
            let mut key: Vec<u8> = Vec::new();
            key.extend_from_slice(parsed.filename.as_str().as_bytes());
            let ghost gp = parsed;
            let ghost pre = pairs@;
            proof {
                lemma_hex_str_shape(sha256_of(f.data@));
                assert(spec_is_pf(files_all[t].filename@));
                assert(pf_record_from(files_all, gp));
            }
            pairs.push((key, parsed));
            proof {
                assert(pairs@.last().1 == gp);
                assert forall|k: int| 0 <= k < pairs@.len() implies pf_record_from(
                    files_all,
                    (#[trigger] pairs@[k]).1,
                ) && pairs@[k].1.hash@.len() == 64 && is_lower_hex_chars(pairs@[k].1.hash@)
                    && pairs@[k].0@ == str_bytes(pairs@[k].1.filename@) by {
                    if k < pre.len() {
                        assert(pairs@[k] == pre[k]);
                    } else {
                        assert(pairs@[k] == pairs@.last());
                    }
                }
            }
            audit.push(
                AuditEntry {
                    timestamp: now_rfc3339(),
                    level: "DEBUG".to_owned(),
                    component: "prefetch".to_owned(),
                    action: "analyze_file".to_owned(),
                    details: "Analyzed one prefetch file".to_owned(),
                    duration_ms: None,
                    result: "success".to_owned(),
                },
            );
        }
    }
    proof {
        assert(files_all.take(files_all.len() as int) =~= files_all);
    }
    let ghost built = pairs@;
    let mut sorted = sort_keyed(pairs);
    let ghost sorted_all = sorted@;
    proof {
        broadcast use vstd::seq_lib::group_to_multiset_ensures;

        assert(sorted_all.to_multiset().len() == sorted_all.len());
        assert(built.to_multiset().len() == built.len());
        assert forall|k: int| 0 <= k < sorted_all.len() implies pf_record_from(
            files_all,
            (#[trigger] sorted_all[k]).1,
        ) && sorted_all[k].1.hash@.len() == 64 && is_lower_hex_chars(sorted_all[k].1.hash@)
            && sorted_all[k].0@ == str_bytes(sorted_all[k].1.filename@) by {
            assert(sorted_all.to_multiset().contains(sorted_all[k]));
            assert(built.to_multiset().contains(sorted_all[k]));
            assert(built.contains(sorted_all[k]));
            let j = choose|j: int| 0 <= j < built.len() && built[j] == sorted_all[k];
            assert(pf_record_from(files_all, built[j].1) && built[j].1.hash@.len() == 64
                && is_lower_hex_chars(built[j].1.hash@) && built[j].0@ == str_bytes(
                built[j].1.filename@,
            ));
        }
    }
    let mut out: Vec<PrefetchFile> = Vec::new();
    while sorted.len() > 0
        invariant
            out@.len() + sorted@.len() == sorted_all.len(),
            sorted@ == sorted_all.skip(out@.len() as int),
            keys_sorted(sorted_all),
            forall|k: int|
                0 <= k < sorted_all.len() ==> pf_record_from(
                    files_all,
                    (#[trigger] sorted_all[k]).1,
                ) && sorted_all[k].1.hash@.len() == 64 && is_lower_hex_chars(sorted_all[k].1.hash@)
                    && sorted_all[k].0@ == str_bytes(sorted_all[k].1.filename@),
            forall|k: int| 0 <= k < out@.len() ==> #[trigger] out@[k] == sorted_all[k].1,
        decreases sorted@.len(),
    {
        let (_, p) = sorted.remove(0);
        out.push(p);
        proof {
            assert(sorted@ =~= sorted_all.skip(out@.len() as int));
        }
    }
    proof {
        assert forall|i: int, j: int| 0 <= i <= j < out@.len() implies lex_le(
            str_bytes((#[trigger] out@[i]).filename@),
            str_bytes((#[trigger] out@[j]).filename@),
        ) by {
            assert(out@[i] == sorted_all[i].1 && out@[j] == sorted_all[j].1);
            assert(lex_le(sorted_all[i].0@, sorted_all[j].0@));
        }
        assert forall|i: int| 0 <= i < out@.len() implies pf_record_from(
            files_all,
            #[trigger] out@[i],
        ) && out@[i].hash@.len() == 64 && is_lower_hex_chars(out@[i].hash@) by {
            assert(out@[i] == sorted_all[i].1);
        }
        lemma_pf_kept_bound(files_all);
    }
    audit.push(
        AuditEntry {
            timestamp: now_rfc3339(),
            level: "INFO".to_owned(),
            component: "prefetch".to_owned(),
            action: "complete_collection".to_owned(),
            details: "Prefetch collection completed".to_owned(),
            duration_ms: None,
            result: "success".to_owned(),
        },
    );
    (out, audit)
}

/// At most every file carries the extension.
proof fn lemma_pf_kept_bound(files: Seq<RawPrefetchFile>)
    ensures
        0 <= spec_pf_kept(files) <= files.len(),
    decreases files.len(),
{
    if files.len() > 0 {
        lemma_pf_kept_bound(files.drop_last());
    }
}

/// Counts per category over a prefetch collection.
#[derive(Debug, Clone)]
pub struct PrefetchStatistics {
    pub total_files: usize,
    pub total_executions: u64,
    pub unique_executables: usize,
    pub exe_files: usize,
    pub dll_files: usize,
    pub other_files: usize,
}

/// The sum of all run counts.
pub open spec fn spec_total_runs(s: Seq<PrefetchFile>) -> int
    decreases s.len(),
{
    if s.len() == 0 {
        0
    } else {
        spec_total_runs(s.drop_last()) + s.last().run_count
    }
}

/// How many distinct executable names `s` carries: a name counts at its
/// first occurrence.
pub open spec fn distinct_names(s: Seq<PrefetchFile>) -> int
    decreases s.len(),
{
    if s.len() == 0 {
        0
    } else {
        distinct_names(s.drop_last()) + (if exists|j: int|
            0 <= j < s.len() - 1 && (#[trigger] s[j]).executable_name@ == s.last().executable_name@ {
            0int
        } else {
            1int
        })
    }
}

/// Counts files, total executions, distinct executable names, and files
/// per extension category.
pub fn get_prefetch_statistics(prefetch_files: &[PrefetchFile]) -> (r: PrefetchStatistics)
    requires
        prefetch_files@.len() < 0x100000000,
    ensures
        r.total_files == prefetch_files@.len(),
        r.total_executions == spec_total_runs(prefetch_files@),
        r.unique_executables == distinct_names(prefetch_files@),
        r.exe_files + r.dll_files + r.other_files == prefetch_files@.len(),
        r.unique_executables <= prefetch_files@.len(),
{
    let n = prefetch_files.len();
    let mut total_runs: u64 = 0;
    let mut exe_files: usize = 0;
    let mut dll_files: usize = 0;
    let mut other_files: usize = 0;
    for i in 0..n
        invariant
            n == prefetch_files@.len(),
            n < 0x100000000,
            total_runs == spec_total_runs(prefetch_files@.take(i as int)),
            total_runs <= i * 0x100000000,
            exe_files + dll_files + other_files == i,
    {
        proof {
            assert(prefetch_files@.take(i + 1).drop_last() =~= prefetch_files@.take(i as int));
            assert(prefetch_files@.take(i + 1).last() == prefetch_files@[i as int]);
        }
        total_runs = total_runs + prefetch_files[i].run_count as u64;
        let name = prefetch_files[i].executable_name.as_str();
        if str_ends_with_ci(name, ".exe") {
            exe_files = exe_files + 1;
        } else if str_ends_with_ci(name, ".dll") {
            dll_files = dll_files + 1;
        } else {
            other_files = other_files + 1;
        }
    }
    assert(prefetch_files@.take(n as int) =~= prefetch_files@);
    let mut unique: usize = 0;
    for i in 0..n
        invariant
            n == prefetch_files@.len(),
            unique == distinct_names(prefetch_files@.take(i as int)),
            unique <= i,
    {
        proof {
            assert(prefetch_files@.take(i + 1).drop_last() =~= prefetch_files@.take(i as int));
            assert(prefetch_files@.take(i + 1).last() == prefetch_files@[i as int]);
        }
        let mut seen = false;
        for j in 0..i
            invariant
                i < n,
                n == prefetch_files@.len(),
                seen <==> exists|t: int|
                    0 <= t < j && (#[trigger] prefetch_files@[t]).executable_name@
                        == prefetch_files@[i as int].executable_name@,
        {
            if crate::types::eq_str(
                prefetch_files[j].executable_name.as_str(),
                prefetch_files[i].executable_name.as_str(),
            ) {
                proof {
                    assert(prefetch_files@[j as int].executable_name@
                        == prefetch_files@[i as int].executable_name@);
                }
                seen = true;
            }
        }
        proof {
            let tk = prefetch_files@.take(i + 1);
            assert((exists|t: int|
                0 <= t < i && (#[trigger] prefetch_files@[t]).executable_name@
                    == prefetch_files@[i as int].executable_name@) <==> (exists|j: int|
                0 <= j < tk.len() - 1 && (#[trigger] tk[j]).executable_name@
                    == tk.last().executable_name@)) by {
                if exists|t: int|
                    0 <= t < i && (#[trigger] prefetch_files@[t]).executable_name@
                        == prefetch_files@[i as int].executable_name@ {
                    let t0 = choose|t: int|
                        0 <= t < i && (#[trigger] prefetch_files@[t]).executable_name@
                            == prefetch_files@[i as int].executable_name@;
                    assert(tk[t0].executable_name@ == tk.last().executable_name@);
                }
                if exists|j: int|
                    0 <= j < tk.len() - 1 && (#[trigger] tk[j]).executable_name@
                        == tk.last().executable_name@ {
                    let j0 = choose|j: int|
                        0 <= j < tk.len() - 1 && (#[trigger] tk[j]).executable_name@
                            == tk.last().executable_name@;
                    assert(prefetch_files@[j0].executable_name@
                        == prefetch_files@[i as int].executable_name@);
                }
            }
        }
        if !seen {
            unique = unique + 1;
        }
    }
    assert(prefetch_files@.take(n as int) =~= prefetch_files@);
    PrefetchStatistics {
        total_files: n,
        total_executions: total_runs,
        unique_executables: unique,
        exe_files,
        dll_files,
        other_files,
    }
}

/// The files of `s` whose executable name contains `pat`, up to ASCII
/// case, in order.
pub open spec fn pf_matching(s: Seq<PrefetchFile>, pat: Seq<char>) -> Seq<PrefetchFile>
    decreases s.len(),
{
    if s.len() == 0 {
        Seq::empty()
    } else if contains_seq_ci(str_bytes(s.last().executable_name@), str_bytes(pat)) {
        pf_matching(s.drop_last(), pat).push(s.last())
    } else {
        pf_matching(s.drop_last(), pat)
    }
}

/// The files whose executable name contains the given text, up to ASCII
/// case, in order.
pub fn find_prefetch_by_executable<'a>(prefetch_files: &'a [PrefetchFile], executable: &str) -> (r:
    Vec<&'a PrefetchFile>)
    ensures
        r@.map_values(|p: &PrefetchFile| *p) == pf_matching(prefetch_files@, executable@),
{
    let mut out: Vec<&'a PrefetchFile> = Vec::new();
    let n = prefetch_files.len();
    for i in 0..n
        invariant
            n == prefetch_files@.len(),
            out@.map_values(|p: &PrefetchFile| *p) =~= pf_matching(
                prefetch_files@.take(i as int),
                executable@,
            ),
    {
        proof {
            assert(prefetch_files@.take(i + 1).drop_last() =~= prefetch_files@.take(i as int));
            assert(prefetch_files@.take(i + 1).last() == prefetch_files@[i as int]);
        }
        if str_contains_ci(prefetch_files[i].executable_name.as_str(), executable) {
            out.push(&prefetch_files[i]);
        }
        assert(out@.map_values(|p: &PrefetchFile| *p) =~= pf_matching(
            prefetch_files@.take(i + 1),
            executable@,
        ));
    }
    assert(prefetch_files@.take(n as int) =~= prefetch_files@);
    out
}

/// The `limit` most-run programs, sorted by run count descending.
pub fn get_most_executed_programs<'a>(prefetch_files: &'a [PrefetchFile], limit: usize) -> (r: Vec<
    (&'a PrefetchFile, u32),
>)
    ensures
        r@.len() == vstd::math::min(limit as int, prefetch_files@.len() as int),
        forall|i: int, j: int|
            0 <= i <= j < r@.len() ==> (#[trigger] r@[j]).1 <= (#[trigger] r@[i]).1,
        forall|i: int| 0 <= i < r@.len() ==> (#[trigger] r@[i]).1 == r@[i].0.run_count,
        forall|i: int|
            0 <= i < r@.len() ==> exists|j: int|
                0 <= j < prefetch_files@.len() && *(#[trigger] r@[i]).0 == prefetch_files@[j],
        forall|j: int|
            0 <= j < prefetch_files@.len() && r@.len() > 0 && (#[trigger] prefetch_files@[j]).run_count
                > r@[r@.len() - 1].1 ==> exists|i: int|
                0 <= i < r@.len() && *(#[trigger] r@[i]).0 == prefetch_files@[j],
{
    let mut pairs: Vec<(Vec<u8>, (&'a PrefetchFile, u32))> = Vec::new();
    let n = prefetch_files.len();
    for i in 0..n
        invariant
            n == prefetch_files@.len(),
            pairs@.len() == i,
            forall|k: int|
                0 <= k < pairs@.len() ==> (#[trigger] pairs@[k]).0@ == be4(pairs@[k].1.1)
                    && pairs@[k].1.1 == pairs@[k].1.0.run_count,
            forall|k: int| 0 <= k < pairs@.len() ==> *(#[trigger] pairs@[k]).1.0 == prefetch_files@[k],
    {
        let rc = prefetch_files[i].run_count;
        let key = be4_of(rc);
        let ghost pre = pairs@;
        pairs.push((key, (&prefetch_files[i], rc)));
        proof {
            assert forall|k: int| 0 <= k < pairs@.len() implies (#[trigger] pairs@[k]).0@ == be4(
                pairs@[k].1.1,
            ) && pairs@[k].1.1 == pairs@[k].1.0.run_count && *pairs@[k].1.0 == prefetch_files@[k] by {
                if k < pre.len() {
                    assert(pairs@[k] == pre[k]);
                } else {
                    assert(pairs@[k] == pairs@.last());
                }
            }
        }
    }
    let ghost built = pairs@;
    let mut sorted = sort_keyed_desc(pairs);
    let ghost sorted_all = sorted@;
    proof {
        broadcast use vstd::seq_lib::group_to_multiset_ensures;

        assert(sorted_all.to_multiset().len() == sorted_all.len());
        assert(built.to_multiset().len() == built.len());
        assert forall|k: int| 0 <= k < sorted_all.len() implies (#[trigger] sorted_all[k]).0@
            == be4(sorted_all[k].1.1) && sorted_all[k].1.1 == sorted_all[k].1.0.run_count by {
            assert(sorted_all.to_multiset().contains(sorted_all[k]));
            assert(built.to_multiset().contains(sorted_all[k]));
            assert(built.contains(sorted_all[k]));
            let j = choose|j: int| 0 <= j < built.len() && built[j] == sorted_all[k];
            assert(built[j].0@ == be4(built[j].1.1) && built[j].1.1 == built[j].1.0.run_count);
        }
    }
    let mut out: Vec<(&'a PrefetchFile, u32)> = Vec::new();
    while sorted.len() > 0 && out.len() < limit
        invariant
            out@.len() + sorted@.len() == sorted_all.len(),
            out@.len() <= limit,
            sorted@ == sorted_all.skip(out@.len() as int),
            keys_sorted_desc(sorted_all),
            forall|k: int|
                0 <= k < sorted_all.len() ==> (#[trigger] sorted_all[k]).0@ == be4(
                    sorted_all[k].1.1,
                ) && sorted_all[k].1.1 == sorted_all[k].1.0.run_count,
            forall|k: int| 0 <= k < out@.len() ==> #[trigger] out@[k] == sorted_all[k].1,
        decreases sorted@.len(),
    {
        let (_, p) = sorted.remove(0);
        out.push(p);
        proof {
            assert(sorted@ =~= sorted_all.skip(out@.len() as int));
        }
    }
    proof {
        assert forall|i: int, j: int| 0 <= i <= j < out@.len() implies (#[trigger] out@[j]).1 <= (
        #[trigger] out@[i]).1 by {
            assert(out@[i] == sorted_all[i].1 && out@[j] == sorted_all[j].1);
            assert(lex_le(sorted_all[j].0@, sorted_all[i].0@));
            lemma_be4_le(sorted_all[j].1.1, sorted_all[i].1.1);
        }
        assert forall|i: int| 0 <= i < out@.len() implies (#[trigger] out@[i]).1
            == out@[i].0.run_count by {
            assert(out@[i] == sorted_all[i].1);
        }
    }
    proof {
        broadcast use vstd::seq_lib::group_to_multiset_ensures;

        let m = out@.len() as int;
        assert(built.len() == n);
        assert forall|i: int| 0 <= i < m implies exists|j: int|
            0 <= j < prefetch_files@.len() && *(#[trigger] out@[i]).0 == prefetch_files@[j] by {
            assert(out@[i] == sorted_all[i].1);
            assert(sorted_all.to_multiset().contains(sorted_all[i]));
            assert(built.to_multiset().contains(sorted_all[i]));
            assert(built.contains(sorted_all[i]));
            let j = choose|j: int| 0 <= j < built.len() && built[j] == sorted_all[i];
            assert(*built[j].1.0 == prefetch_files@[j]);
        }
        if m > 0 {
            assert forall|j: int|
                0 <= j < prefetch_files@.len() && (#[trigger] prefetch_files@[j]).run_count > out@[m
                - 1].1 implies exists|i: int|
                0 <= i < m && *(#[trigger] out@[i]).0 == prefetch_files@[j] by {
                assert(built.to_multiset().contains(built[j]));
                assert(sorted_all.to_multiset().contains(built[j]));
                assert(sorted_all.contains(built[j]));
                let p = choose|p: int| 0 <= p < sorted_all.len() && sorted_all[p] == built[j];
                assert(sorted_all[p].1.1 == prefetch_files@[j].run_count);
                if p >= m {
                    assert(lex_le(sorted_all[p].0@, sorted_all[m - 1].0@));
                    lemma_be4_le(sorted_all[p].1.1, sorted_all[m - 1].1.1);
                    assert(out@[m - 1] == sorted_all[m - 1].1);
                    assert(false);
                }
                assert(out@[p] == sorted_all[p].1);
            }
        }
    }
    out
}

/// The `limit` most recently run programs, sorted newest-first by the
/// last-run timestamp.
pub fn get_recently_executed_programs<'a>(prefetch_files: &'a [PrefetchFile], limit: usize) -> (r:
    Vec<&'a PrefetchFile>)
    ensures
        r@.len() == vstd::math::min(limit as int, prefetch_files@.len() as int),
        forall|i: int, j: int|
            0 <= i <= j < r@.len() ==> lex_le(
                str_bytes((#[trigger] r@[j]).last_run_time@),
                str_bytes((#[trigger] r@[i]).last_run_time@),
            ),
        forall|i: int|
            0 <= i < r@.len() ==> exists|j: int|
                0 <= j < prefetch_files@.len() && *(#[trigger] r@[i]) == prefetch_files@[j],
        forall|j: int|
            0 <= j < prefetch_files@.len() && r@.len() > 0 && !lex_le(
                str_bytes((#[trigger] prefetch_files@[j]).last_run_time@),
                str_bytes(r@[r@.len() - 1].last_run_time@),
            ) ==> exists|i: int|
                0 <= i < r@.len() && *(#[trigger] r@[i]) == prefetch_files@[j],
{
    let mut pairs: Vec<(Vec<u8>, &'a PrefetchFile)> = Vec::new();
    let n = prefetch_files.len();
    for i in 0..n
        invariant
            n == prefetch_files@.len(),
            pairs@.len() == i,
            forall|k: int|
                0 <= k < pairs@.len() ==> (#[trigger] pairs@[k]).0@ == str_bytes(
                    pairs@[k].1.last_run_time@,
                ),
            forall|k: int| 0 <= k < pairs@.len() ==> *(#[trigger] pairs@[k]).1 == prefetch_files@[k],
    {
        let mut key: Vec<u8> = Vec::new();
        key.extend_from_slice(prefetch_files[i].last_run_time.as_str().as_bytes());
        let ghost pre = pairs@;
        pairs.push((key, &prefetch_files[i]));
        proof {
            assert forall|k: int| 0 <= k < pairs@.len() implies (#[trigger] pairs@[k]).0@
                == str_bytes(pairs@[k].1.last_run_time@) && *pairs@[k].1 == prefetch_files@[k] by {
                if k < pre.len() {
                    assert(pairs@[k] == pre[k]);
                } else {
                    assert(pairs@[k] == pairs@.last());
                }
            }
        }
    }
    let ghost built = pairs@;
    let mut sorted = sort_keyed_desc(pairs);
    let ghost sorted_all = sorted@;
    proof {
        broadcast use vstd::seq_lib::group_to_multiset_ensures;

        assert(sorted_all.to_multiset().len() == sorted_all.len());
        assert(built.to_multiset().len() == built.len());
        assert forall|k: int| 0 <= k < sorted_all.len() implies (#[trigger] sorted_all[k]).0@
            == str_bytes(sorted_all[k].1.last_run_time@) by {
            assert(sorted_all.to_multiset().contains(sorted_all[k]));
            assert(built.to_multiset().contains(sorted_all[k]));
            assert(built.contains(sorted_all[k]));
            let j = choose|j: int| 0 <= j < built.len() && built[j] == sorted_all[k];
            assert(built[j].0@ == str_bytes(built[j].1.last_run_time@));
        }
    }
    let mut out: Vec<&'a PrefetchFile> = Vec::new();
    while sorted.len() > 0 && out.len() < limit
        invariant
            out@.len() + sorted@.len() == sorted_all.len(),
            out@.len() <= limit,
            sorted@ == sorted_all.skip(out@.len() as int),
            keys_sorted_desc(sorted_all),
            forall|k: int|
                0 <= k < sorted_all.len() ==> (#[trigger] sorted_all[k]).0@ == str_bytes(
                    sorted_all[k].1.last_run_time@,
                ),
            forall|k: int| 0 <= k < out@.len() ==> #[trigger] out@[k] == sorted_all[k].1,
        decreases sorted@.len(),
    {
        let (_, p) = sorted.remove(0);
        out.push(p);
        proof {
            assert(sorted@ =~= sorted_all.skip(out@.len() as int));
        }
    }
    proof {
        assert forall|i: int, j: int| 0 <= i <= j < out@.len() implies lex_le(
            str_bytes((#[trigger] out@[j]).last_run_time@),
            str_bytes((#[trigger] out@[i]).last_run_time@),
        ) by {
            assert(out@[i] == sorted_all[i].1 && out@[j] == sorted_all[j].1);
            assert(lex_le(sorted_all[j].0@, sorted_all[i].0@));
        }
        broadcast use vstd::seq_lib::group_to_multiset_ensures;

        let m = out@.len() as int;
        assert(built.len() == n);
        assert forall|i: int| 0 <= i < m implies exists|j: int|
            0 <= j < prefetch_files@.len() && *(#[trigger] out@[i]) == prefetch_files@[j] by {
            assert(out@[i] == sorted_all[i].1);
            assert(sorted_all.to_multiset().contains(sorted_all[i]));
            assert(built.to_multiset().contains(sorted_all[i]));
            assert(built.contains(sorted_all[i]));
            let j = choose|j: int| 0 <= j < built.len() && built[j] == sorted_all[i];
            assert(*built[j].1 == prefetch_files@[j]);
        }
        if m > 0 {
            assert forall|j: int|
                0 <= j < prefetch_files@.len() && !lex_le(
                    str_bytes((#[trigger] prefetch_files@[j]).last_run_time@),
                    str_bytes(out@[m - 1].last_run_time@),
                ) implies exists|i: int|
                0 <= i < m && *(#[trigger] out@[i]) == prefetch_files@[j] by {
                assert(built.to_multiset().contains(built[j]));
                assert(sorted_all.to_multiset().contains(built[j]));
                assert(sorted_all.contains(built[j]));
                let p = choose|p: int| 0 <= p < sorted_all.len() && sorted_all[p] == built[j];
                assert(sorted_all[p].0@ == str_bytes(prefetch_files@[j].last_run_time@));
                if p >= m {
                    assert(lex_le(sorted_all[p].0@, sorted_all[m - 1].0@));
                    assert(out@[m - 1] == sorted_all[m - 1].1);
                    assert(false);
                }
                assert(out@[p] == sorted_all[p].1);
            }
        }
    }
    out
}

} // verus!
