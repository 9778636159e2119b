//! The process collector: turns a process-table snapshot into [`Process`]
//! records, hashing each on-disk image, with warnings capped at the first
//! five hash failures.  Taking the snapshot and reading the executables
//! happens outside the library.

use vstd::prelude::*;
use vstd::string::StringExecFns;
use crate::types::{Process, LogEntry, log_entry_wf, eq_str};
use crate::strutil::{
    str_bytes, contains_seq_ci, str_contains_ci, be4, be4_of, lemma_be4_le, u64_to_string,
};
use crate::wellformed::{hex_str, is_lower_hex_chars, lemma_hex_str_shape};
use crate::wrappers::{sha256_digest, hex_lower, sha256_of};
use crate::sortutil::{lex_le, sort_keyed, keys_sorted};

verus! {

/// One process of the snapshot, with the executable's bytes where the
/// image could be read.
#[derive(Debug)]
pub struct RawProcess {
    pub pid: u32,
    pub parent_pid: u32,
    pub name: String,
    pub command_line: String,
    /// The executable path, or the `N/A` sentinel.
    pub executable_path: String,
    pub user: String,
    pub memory_kb: u64,
    /// The executable's contents, or the read error; `None` where the
    /// record names no real path.
    pub exe_read: Option<Result<Vec<u8>, String>>,
}

/// Hashes an executable image that was read from disk: the lower-hex
/// SHA-256 on success, the read error otherwise.
pub fn calculate_file_hash(read: &Result<Vec<u8>, String>) -> (r: Result<String, String>)
    ensures
        read matches Ok(bytes) ==> (r matches Ok(h) && h@ == hex_str(sha256_of(bytes@)) && h@.len()
            == 64 && is_lower_hex_chars(h@)),
        read matches Err(e) ==> (r matches Err(e2) && e2@ == e@),
{
    match read {
        Ok(bytes) => {
            let digest = sha256_digest(bytes.as_slice());
            proof {
                lemma_hex_str_shape(sha256_of(bytes@));
            }
            Ok(hex_lower(digest.as_slice()))
        },
        Err(e) => Err(e.clone()),
    }
}

/// The hash field is one of: 64 lower-hex digits, the `ERROR` sentinel,
/// or the `N/A` sentinel.
pub open spec fn hash_field_ok(h: Seq<char>) -> bool {
    ||| (h.len() == 64 && is_lower_hex_chars(h))
    ||| h == "ERROR"@
    ||| h == "N/A"@
}

/// The snapshot row names a real executable path.
pub open spec fn raw_has_path(row: RawProcess) -> bool {
    row.executable_path@.len() > 0 && row.executable_path@ != "N/A"@
}

/// The record renders snapshot row `row`: fields copied, and the hash per
/// the sentinel rule — `N/A` exactly without a path, the hex SHA-256 of
/// the read bytes on a successful read, `ERROR` otherwise.
pub open spec fn proc_matches_row(row: RawProcess, p: Process) -> bool {
    &&& p.pid == row.pid
    &&& p.parent_pid == row.parent_pid
    &&& p.name == row.name
    &&& p.command_line == row.command_line
    &&& p.executable_path == row.executable_path
    &&& p.user == row.user
    &&& p.memory_usage_kb == row.memory_kb
    &&& p.loaded_modules@.len() == 0
    &&& p.sha256_hash@ == (if !raw_has_path(row) {
        "N/A"@
    } else {
        match row.exe_read {
            Some(read) => match read {
                Ok(b) => hex_str(sha256_of(b@)),
                Err(_) => "ERROR"@,
            },
            None => "ERROR"@,
        }
    })
}

/// The record renders one of the given snapshot rows.
pub open spec fn proc_from_row(raw: Seq<RawProcess>, p: Process) -> bool {
    exists|j: int| 0 <= j < raw.len() && proc_matches_row(#[trigger] raw[j], p)
}

/// Builds, hashes and sorts the records of a process snapshot.  Hash
/// failures yield the `ERROR` sentinel and a warning, the warnings capped
/// at the first five; processes without a path get `N/A`.
#[verifier::rlimit(60)]
/// The message is a per-process hash-failure warning.
pub open spec fn is_hash_warn(m: Seq<char>) -> bool {
    m.len() >= 29 && m.subrange(0, 29) == "Failed to calculate hash for "@
}

/// How many entries carry a per-process hash-failure warning.
pub open spec fn count_hash_warns(s: Seq<LogEntry>) -> int
    decreases s.len(),
{
    if s.len() == 0 {
        0
    } else {
        count_hash_warns(s.drop_last()) + if is_hash_warn(s.last().message@) {
            1int
        } else {
            0int
        }
    }
}

/// One push changes the warning count by at most one, and not at all for
/// a message that is no hash warning.
proof fn lemma_count_hash_warns_push(s: Seq<LogEntry>, e: LogEntry)
    ensures
        count_hash_warns(s.push(e)) == count_hash_warns(s) + (if is_hash_warn(e.message@) {
            1int
        } else {
            0int
        }),
{
    assert(s.push(e).drop_last() =~= s);
    assert(s.push(e).last() == e);
}

pub fn collect_processes(raw: Vec<RawProcess>) -> (r: (Vec<Process>, Vec<LogEntry>))
    ensures
        forall|i: int, j: int|
            0 <= i <= j < r.0@.len() ==> (#[trigger] r.0@[i]).pid <= (#[trigger] r.0@[j]).pid,
        forall|i: int| 0 <= i < r.0@.len() ==> hash_field_ok((#[trigger] r.0@[i]).sha256_hash@),
        forall|i: int| 0 <= i < r.0@.len() ==> proc_from_row(raw@, #[trigger] r.0@[i]),
        r.0@.len() == raw@.len(),
        r.1@.len() >= 2,
        forall|i: int| 0 <= i < r.1@.len() ==> log_entry_wf(#[trigger] r.1@[i]),
        r.1@[0].message@ == "Starting process enumeration"@,
        r.1@.last().message@ == "Process enumeration completed"@,
        count_hash_warns(r.1@) <= 5,
{
    let mut logs: Vec<LogEntry> = Vec::new();
    let ghost l0 = logs@;
    logs.push(LogEntry::info("Starting process enumeration"));
    proof {
        reveal_strlit("Starting process enumeration");
        reveal_strlit("Failed to calculate hash for ");
        lemma_count_hash_warns_push(l0, logs@.last());
        assert(count_hash_warns(logs@) == 0);
    }
    let total = raw.len();
    {
        let mut m = "Found ".to_owned();
        let num = u64_to_string(total as u64);
        m.append(num.as_str());
        m.append(" running processes");
        let ghost l1 = logs@;
        let ghost gm = m@;
        logs.push(LogEntry::info(m.as_str()));
        proof {
            reveal_strlit("Found ");
            reveal_strlit("Failed to calculate hash for ");
            assert(!is_hash_warn(gm)) by {
                if is_hash_warn(gm) {
                    assert(gm.subrange(0, 29)[1] == gm[1]);
                    assert(gm[1] == 'o');
                    assert("Failed to calculate hash for "@[1] == 'a');
                }
            }
            lemma_count_hash_warns_push(l1, logs@.last());
            assert(count_hash_warns(logs@) == 0);
        }
    }
    let mut pairs: Vec<(Vec<u8>, Process)> = Vec::new();
    let mut hash_errors: u64 = 0;
    let ghost raw_all = raw@;
    let mut rest = raw;
    while rest.len() > 0
        invariant
            pairs@.len() + rest@.len() == raw_all.len(),
            rest@ == raw_all.skip(raw_all.len() - rest@.len()),
            forall|k: int|
                0 <= k < pairs@.len() ==> hash_field_ok((#[trigger] pairs@[k]).1.sha256_hash@)
                    && proc_from_row(raw_all, pairs@[k].1) && pairs@[k].0@ == be4(pairs@[k].1.pid),
            forall|i: int| 0 <= i < logs@.len() ==> log_entry_wf(#[trigger] logs@[i]),
            logs@.len() >= 2,
            logs@[0].message@ == "Starting process enumeration"@,
            count_hash_warns(logs@) <= hash_errors,
            count_hash_warns(logs@) <= 5,
        decreases rest@.len(),
    {
        let ghost t: int = raw_all.len() - rest@.len();
        let p = rest.remove(0);
        let ghost grow = p;
        proof {
            assert(raw_all.skip(t).drop_first() =~= raw_all.skip(t + 1));
            assert(rest@ =~= raw_all.skip(t + 1));
            assert(grow == raw_all[t]);
        }
        let has_path = !p.executable_path.as_str().is_empty() && !eq_str(
            p.executable_path.as_str(),
            "N/A",
        );
        let hash: String;
        if has_path {
            match &p.exe_read {
                Some(read) => {
                    match calculate_file_hash(read) {
                        Ok(h) => {
                            hash = h;
                        },
                        Err(e) => {
                            hash = "ERROR".to_owned();
                            hash_errors = if hash_errors < u64::MAX {
                                hash_errors + 1
                            } else {
                                hash_errors
                            };
                            if hash_errors <= 5 {
                                let mut m = "Failed to calculate hash for ".to_owned();
                                m.append(p.executable_path.as_str());
                                m.append(": ");
                                m.append(e.as_str());
                                let ghost lpre = logs@;
                                logs.push(LogEntry::warn(m.as_str()));
                                proof {
                                    lemma_count_hash_warns_push(lpre, logs@.last());
                                }
                            }
                        },
                    }
                },
                None => {
                    hash = "ERROR".to_owned();
                    hash_errors = if hash_errors < u64::MAX {
                        hash_errors + 1
                    } else {
                        hash_errors
                    };
                },
            }
        } else {
            hash = "N/A".to_owned();
        }
        proof {
            reveal_strlit("ERROR");
            reveal_strlit("N/A");
        }
        proof {
            reveal_strlit("N/A");
        }
        let proc = Process {
            pid: p.pid,
            parent_pid: p.parent_pid,
            name: p.name,
            command_line: p.command_line,
            executable_path: p.executable_path,
            sha256_hash: hash,
            user: p.user,
            memory_usage_kb: p.memory_kb,
            loaded_modules: Vec::new(),
        };
        let key = be4_of(proc.pid);
        let ghost gp = proc;
        let ghost pre = pairs@;
        pairs.push((key, proc));
        proof {
            assert(pairs@.last().1 == gp);
            assert(hash_field_ok(gp.sha256_hash@));
            assert(proc_matches_row(raw_all[t], gp));
            assert(proc_from_row(raw_all, gp));
            assert forall|k: int| 0 <= k < pairs@.len() implies hash_field_ok(
                (#[trigger] pairs@[k]).1.sha256_hash@,
            ) && proc_from_row(raw_all, pairs@[k].1) && pairs@[k].0@ == be4(pairs@[k].1.pid) by {
                if k < pre.len() {
                    assert(pairs@[k] == pre[k]);
                } else {
                    assert(pairs@[k] == pairs@.last());
                }
            }
        }
    }
    if hash_errors > 0 {
        let mut m = "Failed to calculate hashes for ".to_owned();
        let num = u64_to_string(hash_errors);
        m.append(num.as_str());
        m.append(" processes");
        let ghost lpre = logs@;
        let ghost gm = m@;
        logs.push(LogEntry::warn(m.as_str()));
        proof {
            reveal_strlit("Failed to calculate hashes for ");
            reveal_strlit("Failed to calculate hash for ");
            assert(!is_hash_warn(gm)) by {
                if is_hash_warn(gm) {
                    assert(gm.subrange(0, 29)[24] == gm[24]);
                    assert(gm[24] == "Failed to calculate hashes for "@[24]);
                    assert("Failed to calculate hashes for "@[24] == 'e');
                    assert("Failed to calculate hash for "@[24] == ' ');
                }
            }
            lemma_count_hash_warns_push(lpre, logs@.last());
        }
    }
    let ghost built = pairs@;
    let mut sorted = sort_keyed(pairs);
    let ghost sorted_all = sorted@;
    proof {
        broadcast use vstd::seq_lib::group_to_multiset_ensures;

        assert(sorted_all.to_multiset().len() == sorted_all.len());
        assert(built.to_multiset().len() == built.len());
        assert forall|k: int| 0 <= k < sorted_all.len() implies hash_field_ok(
            (#[trigger] sorted_all[k]).1.sha256_hash@,
        ) && proc_from_row(raw_all, sorted_all[k].1) && sorted_all[k].0@ == be4(
            sorted_all[k].1.pid,
        ) by {
            assert(sorted_all.to_multiset().contains(sorted_all[k]));
            assert(built.to_multiset().contains(sorted_all[k]));
            assert(built.contains(sorted_all[k]));
            let j = choose|j: int| 0 <= j < built.len() && built[j] == sorted_all[k];
            assert(hash_field_ok(built[j].1.sha256_hash@) && proc_from_row(raw_all, built[j].1)
                && built[j].0@ == be4(built[j].1.pid));
        }
    }
    let mut procs: Vec<Process> = Vec::new();
    while sorted.len() > 0
        invariant
            procs@.len() + sorted@.len() == sorted_all.len(),
            sorted@ == sorted_all.skip(procs@.len() as int),
            keys_sorted(sorted_all),
            forall|k: int|
                0 <= k < sorted_all.len() ==> hash_field_ok(
                    (#[trigger] sorted_all[k]).1.sha256_hash@,
                ) && proc_from_row(raw_all, sorted_all[k].1) && sorted_all[k].0@ == be4(
                    sorted_all[k].1.pid,
                ),
            forall|k: int| 0 <= k < procs@.len() ==> #[trigger] procs@[k] == sorted_all[k].1,
        decreases sorted@.len(),
    {
        let (_, p) = sorted.remove(0);
        procs.push(p);
        proof {
            assert(sorted@ =~= sorted_all.skip(procs@.len() as int));
        }
    }
    proof {
        assert forall|i: int, j: int| 0 <= i <= j < procs@.len() implies (#[trigger] procs@[i]).pid
            <= (#[trigger] procs@[j]).pid by {
            assert(procs@[i] == sorted_all[i].1 && procs@[j] == sorted_all[j].1);
            assert(lex_le(sorted_all[i].0@, sorted_all[j].0@));
            lemma_be4_le(sorted_all[i].1.pid, sorted_all[j].1.pid);
        }
        assert forall|i: int| 0 <= i < procs@.len() implies hash_field_ok(
            (#[trigger] procs@[i]).sha256_hash@,
        ) && proc_from_row(raw_all, procs@[i]) by {
            assert(procs@[i] == sorted_all[i].1);
        }
    }
    let ghost lfin = logs@;
    logs.push(LogEntry::info("Process enumeration completed"));
    proof {
        reveal_strlit("Process enumeration completed");
        reveal_strlit("Failed to calculate hash for ");
        assert(!is_hash_warn("Process enumeration completed"@)) by {
            if is_hash_warn("Process enumeration completed"@) {
                assert("Process enumeration completed"@.subrange(0, 29)[0]
                    == "Process enumeration completed"@[0]);
                assert("Process enumeration completed"@[0] == 'P');
                assert("Failed to calculate hash for "@[0] == 'F');
            }
        }
        lemma_count_hash_warns_push(lfin, logs@.last());
    }
    (procs, logs)
}

/// The child PIDs of `pid`, in order.
pub open spec fn children_of(s: Seq<Process>, pid: u32) -> Seq<u32>
    decreases s.len(),
{
    if s.len() == 0 {
        Seq::empty()
    } else if s.last().parent_pid == pid {
        children_of(s.drop_last(), pid).push(s.last().pid)
    } else {
        children_of(s.drop_last(), pid)
    }
}

/// How many of the first `k` processes have children.
pub open spec fn tree_prefix_len(s: Seq<Process>, k: int) -> int
    decreases k,
{
    if k <= 0 {
        0
    } else {
        tree_prefix_len(s, k - 1) + if children_of(s, s[k - 1].pid).len() > 0 {
            1int
        } else {
            0int
        }
    }
}

/// The entry count grows with the prefix, by at most one per process.
pub proof fn lemma_tree_prefix_mono(s: Seq<Process>, a: int, b: int)
    requires
        a <= b,
    ensures
        tree_prefix_len(s, a) <= tree_prefix_len(s, b),
    decreases b - a,
{
    if a < b {
        lemma_tree_prefix_mono(s, a, b - 1);
    }
}

/// The parent-child pairs: one entry per process that has children, in
/// process order, carrying its child PIDs in order.  A process without
/// children yields no entry, so no extraneous pair appears, and with
/// distinct input PIDs the entry keys are distinct.
pub fn build_process_tree(processes: &[Process]) -> (r: Vec<(u32, Vec<u32>)>)
    ensures
        forall|k: int|
            0 <= k < r@.len() ==> (#[trigger] r@[k]).1@ == children_of(processes@, r@[k].0)
                && r@[k].1@.len() > 0,
        forall|i: int|
            0 <= i < processes@.len() ==> (children_of(
                processes@,
                (#[trigger] processes@[i]).pid,
            ).len() > 0 ==> exists|k: int| 0 <= k < r@.len() && (#[trigger] r@[k]).0 == processes@[i].pid),
        r@.len() == tree_prefix_len(processes@, processes@.len() as int),
        forall|i: int|
            0 <= i < processes@.len() && children_of(
                processes@,
                (#[trigger] processes@[i]).pid,
            ).len() > 0 ==> r@[tree_prefix_len(processes@, i)].0 == processes@[i].pid,
{
    let mut out: Vec<(u32, Vec<u32>)> = Vec::new();
    let n = processes.len();
    for i in 0..n
        invariant
            n == processes@.len(),
            forall|k: int|
                0 <= k < out@.len() ==> (#[trigger] out@[k]).1@ == children_of(
                    processes@,
                    out@[k].0,
                ) && out@[k].1@.len() > 0,
            forall|t: int|
                0 <= t < i ==> (children_of(processes@, (#[trigger] processes@[t]).pid).len() > 0
                    ==> exists|k: int|
                    0 <= k < out@.len() && (#[trigger] out@[k]).0 == processes@[t].pid),
            out@.len() == tree_prefix_len(processes@, i as int),
            forall|t: int|
                0 <= t < i && children_of(processes@, (#[trigger] processes@[t]).pid).len() > 0
                    ==> out@[tree_prefix_len(processes@, t)].0 == processes@[t].pid,
    {
        let pid = processes[i].pid;
        let children = collect_children(processes, pid);
        let ghost pre = out@;
        let pushed = children.len() > 0;
        if pushed {
            out.push((pid, children));
            proof {
                assert((#[trigger] out@[out@.len() - 1]).0 == pid);
                assert forall|k: int| 0 <= k < out@.len() implies (#[trigger] out@[k]).1@
                    == children_of(processes@, out@[k].0) && out@[k].1@.len() > 0 by {
                    if k < pre.len() {
                        assert(out@[k] == pre[k]);
                    } else {
                        assert(out@[k] == out@.last());
                    }
                }
            }
        }
        proof {
            assert forall|t: int|
                0 <= t < i + 1 && children_of(
                processes@,
                (#[trigger] processes@[t]).pid,
            ).len() > 0 implies out@[tree_prefix_len(processes@, t)].0 == processes@[t].pid by {
                lemma_tree_prefix_mono(processes@, 0, t);
                if t < i {
                    lemma_tree_prefix_mono(processes@, t + 1, i as int);
                    assert(tree_prefix_len(processes@, t + 1) == tree_prefix_len(processes@, t)
                        + 1);
                    assert(out@[tree_prefix_len(processes@, t)] == pre[tree_prefix_len(
                        processes@,
                        t,
                    )]);
                } else {
                    assert(tree_prefix_len(processes@, t) == pre.len());
                }
            }
            assert forall|t: int| 0 <= t < i + 1 implies (children_of(
                processes@,
                (#[trigger] processes@[t]).pid,
            ).len() > 0 ==> exists|k: int|
                0 <= k < out@.len() && (#[trigger] out@[k]).0 == processes@[t].pid) by {
                if children_of(processes@, processes@[t].pid).len() > 0 {
                    if t < i {
                        let k0 = choose|k: int|
                            0 <= k < pre.len() && (#[trigger] pre[k]).0 == processes@[t].pid;
                        assert(out@[k0] == pre[k0]);
                        assert(out@[k0].0 == processes@[t].pid);
                    } else {
                        assert(pushed);
                        assert(out@[out@.len() - 1].0 == processes@[t].pid);
                    }
                }
            }
        }
    }
    out
}

/// The PIDs whose parent is `pid`, in order.
fn collect_children(processes: &[Process], pid: u32) -> (r: Vec<u32>)
    ensures
        r@ == children_of(processes@, pid),
{
    let mut out: Vec<u32> = Vec::new();
    let n = processes.len();
    for i in 0..n
        invariant
            n == processes@.len(),
            out@ =~= children_of(processes@.take(i as int), pid),
    {
        proof {
            assert(processes@.take(i + 1).drop_last() =~= processes@.take(i as int));
            assert(processes@.take(i + 1).last() == processes@[i as int]);
        }
        if processes[i].parent_pid == pid {
            out.push(processes[i].pid);
        }
        assert(out@ =~= children_of(processes@.take(i + 1), pid));
    }
    assert(processes@.take(n as int) =~= processes@);
    out
}

/// The processes of `s` whose name contains `pat`, up to ASCII case, in
/// order.
pub open spec fn procs_named(s: Seq<Process>, pat: Seq<char>) -> Seq<Process>
    decreases s.len(),
{
    if s.len() == 0 {
        Seq::empty()
    } else if contains_seq_ci(str_bytes(s.last().name@), str_bytes(pat)) {
        procs_named(s.drop_last(), pat).push(s.last())
    } else {
        procs_named(s.drop_last(), pat)
    }
}

/// The processes whose name contains the given text, up to ASCII case, in
/// order.
pub fn find_processes_by_name<'a>(processes: &'a [Process], name: &str) -> (r: Vec<&'a Process>)
    ensures
        r@.map_values(|p: &Process| *p) == procs_named(processes@, name@),
{
    let mut out: Vec<&'a Process> = Vec::new();
    let n = processes.len();
    for i in 0..n
        invariant
            n == processes@.len(),
            out@.map_values(|p: &Process| *p) =~= procs_named(processes@.take(i as int), name@),
    {
        proof {
            assert(processes@.take(i + 1).drop_last() =~= processes@.take(i as int));
            assert(processes@.take(i + 1).last() == processes@[i as int]);
        }
        if str_contains_ci(processes[i].name.as_str(), name) {
            out.push(&processes[i]);
        }
        assert(out@.map_values(|p: &Process| *p) =~= procs_named(processes@.take(i + 1), name@));
    }
    assert(processes@.take(n as int) =~= processes@);
    out
}

/// Whether the slice holds the value.
fn contains_u32(s: &[u32], v: u32) -> (r: bool)
    ensures
        r == s@.contains(v),
{
    let n = s.len();
    for i in 0..n
        invariant
            n == s@.len(),
            forall|k: int| 0 <= k < i ==> s@[k] != v,
    {
        if s[i] == v {
            return true;
        }
    }
    false
}

/// The processes whose PID owns a network connection, in order.
pub fn find_processes_with_network_activity<'a>(processes: &'a [Process], network_pids: &[u32])
    -> (r: Vec<&'a Process>)
    ensures
        forall|i: int| 0 <= i < r@.len() ==> network_pids@.contains((#[trigger] r@[i]).pid),
{
    let mut out: Vec<&'a Process> = Vec::new();
    let n = processes.len();
    for i in 0..n
        invariant
            n == processes@.len(),
            forall|k: int| 0 <= k < out@.len() ==> network_pids@.contains((#[trigger] out@[k]).pid),
    {
        if contains_u32(network_pids, processes[i].pid) {
            out.push(&processes[i]);
        }
    }
    out
}

} // verus!
