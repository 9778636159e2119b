//! The scan orchestrator: runs the collectors in their fixed order over
//! the inputs the shell gathered, assembles the report, and computes the
//! totals and the collection summary.

use vstd::prelude::*;
use vstd::string::StringExecFns;
use crate::types::{
    ScanResults, CollectionSummary, LogEntry, log_entry_wf, NetworkConnection, Process, eq_str,
};
use crate::logger::{Logger, spec_success_rate};
use crate::forensic_types::AuditEntry;
use crate::network::{TcpRow, UdpRow};
use crate::persistence::{RegRunKey, StartupFolder};
use crate::event_logs::{RawEventRecord, EventFilter};
use crate::processes::RawProcess;
use crate::prefetch::RawPrefetchFile;
use crate::strutil::{
    str_chars, chars_to_string, trim_chars, trim_char_slice, lower_char, lower_char_of,
};

verus! {

/// Everything the collectors need from the live system, gathered by the
/// shell around the library.
pub struct ScanInputs {
    pub username: Option<String>,
    pub domain: Option<String>,
    pub processes: Vec<RawProcess>,
    pub tcp_rows: Result<Vec<TcpRow>, String>,
    pub udp_rows: Result<Vec<UdpRow>, String>,
    pub reg_keys: Result<Vec<RegRunKey>, String>,
    pub startup_folders: Result<Vec<StartupFolder>, String>,
    pub services: Result<Vec<(String, String)>, String>,
    pub tasks_csv: Result<String, String>,
    pub security_events: Result<Vec<RawEventRecord>, String>,
    pub system_events: Result<Vec<RawEventRecord>, String>,
    pub application_events: Result<Vec<RawEventRecord>, String>,
    pub prefetch_files: Vec<RawPrefetchFile>,
    pub shimcache_blobs: Vec<(String, Vec<u8>)>,
}

/// The summed artifact count of a report, at spec level.
pub open spec fn spec_artifact_total(r: ScanResults) -> int {
    r.artifacts.running_processes@.len() as int + r.artifacts.network_connections@.len()
        + r.artifacts.persistence_mechanisms@.len() + r.artifacts.event_logs.security@.len()
        + r.artifacts.event_logs.system@.len() + r.artifacts.event_logs.application@.len()
        + r.artifacts.execution_evidence.prefetch_files@.len()
        + r.artifacts.execution_evidence.shimcache_entries@.len()
}

/// Appends collector log entries to the report.
fn append_logs(results: &mut ScanResults, logs: Vec<LogEntry>)
    ensures
        final(results).collection_log@ == old(results).collection_log@ + logs@,
        final(results).scan_metadata == old(results).scan_metadata,
        final(results).artifacts == old(results).artifacts,
{
    let mut rest = logs;
    let ghost all = rest@;
    proof {
        assert(all.take(0) =~= Seq::<LogEntry>::empty());
        assert(results.collection_log@ =~= old(results).collection_log@ + all.take(0));
        assert(rest@ =~= all.skip(0));
    }
    while rest.len() > 0
        invariant
            rest@.len() <= all.len(),
            results.collection_log@ == old(results).collection_log@ + all.take(
                all.len() - rest@.len(),
            ),
            rest@ == all.skip(all.len() - rest@.len()),
            results.scan_metadata == old(results).scan_metadata,
            results.artifacts == old(results).artifacts,
        decreases rest@.len(),
    {
        let ghost k: int = all.len() - rest@.len();
        let e = rest.remove(0);
        results.add_log(e);
        proof {
            assert(all.skip(k).drop_first() =~= all.skip(k + 1));
            assert(all.take(k + 1) =~= all.take(k).push(all[k]));
            assert(results.collection_log@ =~= old(results).collection_log@ + all.take(k + 1));
            assert(rest@ =~= all.skip(k + 1));
        }
    }
    proof {
        assert(all.take(all.len() as int) =~= all);
        assert(results.collection_log@ =~= old(results).collection_log@ + all);
    }
}

/// Counts the `ERROR` and `WARN` entries of a collection log.
fn count_log_levels(entries: &Vec<LogEntry>) -> (r: (usize, usize))
    ensures
        r.0 == crate::logger::count_level(entries@, "ERROR"@),
        r.1 == crate::logger::count_level(entries@, "WARN"@),
        r.0 <= entries@.len(),
        r.1 <= entries@.len(),
{
    proof {
        reveal_strlit("WARN");
        reveal_strlit("ERROR");
        assert("WARN"@ =~= seq!['W', 'A', 'R', 'N']);
        assert("ERROR"@ =~= seq!['E', 'R', 'R', 'O', 'R']);
        assert("WARN"@ != "ERROR"@);
    }
    let n = entries.len();
    let mut errors: usize = 0;
    let mut warns: usize = 0;
    for i in 0..n
        invariant
            n == entries@.len(),
            errors == crate::logger::count_level(entries@.take(i as int), "ERROR"@),
            warns == crate::logger::count_level(entries@.take(i as int), "WARN"@),
            errors <= i,
            warns <= i,
    {
        proof {
            reveal_strlit("WARN");
            reveal_strlit("ERROR");
            assert("WARN"@ =~= seq!['W', 'A', 'R', 'N']);
            assert("ERROR"@ =~= seq!['E', 'R', 'R', 'O', 'R']);
            assert("WARN"@ != "ERROR"@);
            assert(entries@.take(i + 1).drop_last() =~= entries@.take(i as int));
            assert(entries@.take(i + 1).last() == entries@[i as int]);
        }
        let lv = entries[i].level.as_str();
        if eq_str(lv, "ERROR") {
            errors = errors + 1;
        } else if eq_str(lv, "WARN") {
            warns = warns + 1;
        }
    }
    proof {
        assert(entries@.take(n as int) =~= entries@);
    }
    (errors, warns)
}

/// Renders one collector-local audit entry as a collection-log entry.
/// Levels outside the collection log's three (`DEBUG` in particular)
/// become `INFO`.
pub fn audit_to_log(entry: &AuditEntry) -> (r: LogEntry)
    ensures
        log_entry_wf(r),
{
    let level = if eq_str(entry.level.as_str(), "WARN") {
        "WARN"
    } else if eq_str(entry.level.as_str(), "ERROR") {
        "ERROR"
    } else {
        "INFO"
    };
    let mut m = "[".to_owned();
    m.append(entry.component.as_str());
    m.append("] ");
    m.append(entry.action.as_str());
    m.append(": ");
    m.append(entry.details.as_str());
    if eq_str(level, "WARN") {
        LogEntry::warn(m.as_str())
    } else if eq_str(level, "ERROR") {
        LogEntry::error(m.as_str())
    } else {
        LogEntry::info(m.as_str())
    }
}

/// Renders a batch of audit entries as collection-log entries.
fn audits_to_logs(entries: &Vec<AuditEntry>) -> (r: Vec<LogEntry>)
    ensures
        forall|i: int| 0 <= i < r@.len() ==> log_entry_wf(#[trigger] r@[i]),
{
    let mut out: Vec<LogEntry> = Vec::new();
    let n = entries.len();
    for i in 0..n
        invariant
            n == entries@.len(),
            forall|k: int| 0 <= k < out@.len() ==> log_entry_wf(#[trigger] out@[k]),
    {
        out.push(audit_to_log(&entries[i]));
    }
    out
}

/// The name of the last process carrying `pid`, or the default where
/// none does.
pub open spec fn name_for(processes: Seq<Process>, pid: u32, dflt: Seq<char>) -> Seq<char>
    decreases processes.len(),
{
    if processes.len() == 0 {
        dflt
    } else if processes.last().pid == pid {
        processes.last().name@
    } else {
        name_for(processes.drop_last(), pid, dflt)
    }
}

/// Copies each owning process's name onto its connections; everything
/// else about each connection stays as it was, and connections without a
/// matching process keep their name.
pub fn fill_process_names(connections: Vec<NetworkConnection>, processes: &Vec<Process>) -> (r:
    Vec<NetworkConnection>)
    ensures
        r@.len() == connections@.len(),
        forall|i: int|
            0 <= i < r@.len() ==> ((#[trigger] r@[i]).protocol == connections@[i].protocol
                && r@[i].local_address == connections@[i].local_address && r@[i].local_port
                == connections@[i].local_port && r@[i].remote_address
                == connections@[i].remote_address && r@[i].remote_port
                == connections@[i].remote_port && r@[i].state == connections@[i].state
                && r@[i].owning_pid == connections@[i].owning_pid && r@[i].process_name@
                == name_for(
                processes@,
                connections@[i].owning_pid,
                connections@[i].process_name@,
            )),
{
    let mut out: Vec<NetworkConnection> = Vec::new();
    let mut rest = connections;
    let ghost all = rest@;
    while rest.len() > 0
        invariant
            out@.len() + rest@.len() == all.len(),
            rest@ == all.skip(out@.len() as int),
            forall|i: int|
                0 <= i < out@.len() ==> ((#[trigger] out@[i]).protocol == all[i].protocol
                    && out@[i].local_address == all[i].local_address && out@[i].local_port
                    == all[i].local_port && out@[i].remote_address == all[i].remote_address
                    && out@[i].remote_port == all[i].remote_port && out@[i].state == all[i].state
                    && out@[i].owning_pid == all[i].owning_pid && out@[i].process_name@
                    == name_for(processes@, all[i].owning_pid, all[i].process_name@)),
        decreases rest@.len(),
    {
        let mut c = rest.remove(0);
        let n = processes.len();
        for j in 0..n
            invariant
                n == processes@.len(),
                c.protocol == all[out@.len() as int].protocol,
                c.local_address == all[out@.len() as int].local_address,
                c.local_port == all[out@.len() as int].local_port,
                c.remote_address == all[out@.len() as int].remote_address,
                c.remote_port == all[out@.len() as int].remote_port,
                c.state == all[out@.len() as int].state,
                c.owning_pid == all[out@.len() as int].owning_pid,
                c.process_name@ == name_for(
                    processes@.take(j as int),
                    all[out@.len() as int].owning_pid,
                    all[out@.len() as int].process_name@,
                ),
                out@.len() < all.len(),
        {
            proof {
                assert(processes@.take(j + 1).drop_last() =~= processes@.take(j as int));
                assert(processes@.take(j + 1).last() == processes@[j as int]);
            }
            if processes[j].pid == c.owning_pid {
                c.process_name = processes[j].name.clone();
            }
        }
        proof {
            assert(processes@.take(n as int) =~= processes@);
        }
        out.push(c);
        proof {
            assert(rest@ =~= all.skip(out@.len() as int));
        }
    }
    out
}

/// Runs every collector in the fixed order over the gathered inputs and
/// assembles the report: a fresh scan id and start timestamp, the sorted
/// artifact collections, the artifact total, the collection summary, and
/// a collection log whose entries are all well-formed.
#[verifier::rlimit(100)]
pub fn run_scan(hostname: String, os_version: String, verbose: bool, inputs: ScanInputs) -> (r:
    ScanResults)
    requires
        (match inputs.security_events {
            Ok(v) => v@.len(),
            Err(_) => 0,
        }) + (match inputs.system_events {
            Ok(v) => v@.len(),
            Err(_) => 0,
        }) + (match inputs.application_events {
            Ok(v) => v@.len(),
            Err(_) => 0,
        }) <= usize::MAX,
    ensures
        crate::wellformed::is_uuid_v4(crate::strutil::str_bytes(r.scan_metadata.scan_id@)),
        crate::wellformed::is_rfc3339(crate::strutil::str_bytes(r.scan_metadata.scan_start_utc@)),
        r.scan_metadata.hostname == hostname,
        r.scan_metadata.os_version == os_version,
        spec_artifact_total(r) <= u64::MAX ==> r.scan_metadata.total_artifacts
            == spec_artifact_total(r),
        r.artifacts.running_processes@.len() == inputs.processes@.len(),
        r.artifacts.network_connections@.len() == (match inputs.tcp_rows {
            Ok(v) => v@.len(),
            Err(_) => 0,
        }) + (match inputs.udp_rows {
            Ok(v) => v@.len(),
            Err(_) => 0,
        }),
        r.artifacts.persistence_mechanisms@.len() >= (match inputs.reg_keys {
            Ok(v) => crate::persistence::reg_prefix_len(v@, v@.len() as int),
            Err(_) => 0int,
        }) + (match inputs.startup_folders {
            Ok(v) => crate::persistence::startup_prefix_len(v@, v@.len() as int),
            Err(_) => 0int,
        }) + (match inputs.services {
            Ok(v) => crate::persistence::kept_service_count(v@),
            Err(_) => 0int,
        }),
        inputs.security_events matches Ok(v) ==> r.artifacts.event_logs.security@.len()
            == crate::event_logs::kept_count_by_view(crate::event_logs::sec_filter_entries(), v@),
        inputs.system_events matches Ok(v) ==> r.artifacts.event_logs.system@.len()
            == crate::event_logs::kept_count_by_view(crate::event_logs::sys_filter_entries(), v@),
        inputs.application_events matches Ok(v) ==> r.artifacts.event_logs.application@.len()
            == crate::event_logs::kept_count_by_view(crate::event_logs::app_filter_entries(), v@),
        r.artifacts.execution_evidence.prefetch_files@.len() == crate::prefetch::spec_pf_kept(
            inputs.prefetch_files@,
        ),
        r.artifacts.execution_evidence.shimcache_entries@.len()
            == crate::shimcache::spec_blobs_total(inputs.shimcache_blobs@),
        r.collection_log@.len() >= 2,
        r.collection_log@[0].message@ == "Starting system information collection"@,
        forall|i: int| 0 <= i < r.collection_log@.len() ==> log_entry_wf(#[trigger] r.collection_log@[i]),
        r.scan_metadata.collection_summary.total_logs == r.collection_log@.len(),
        r.scan_metadata.collection_summary.error_count == crate::logger::count_level(
            r.collection_log@,
            "ERROR"@,
        ),
        r.scan_metadata.collection_summary.warning_count == crate::logger::count_level(
            r.collection_log@,
            "WARN"@,
        ),
        r.scan_metadata.collection_summary.success_rate == spec_success_rate(
            r.collection_log@.len() as int,
            crate::logger::count_level(r.collection_log@, "ERROR"@),
        ),
        r.scan_metadata.collection_summary.success_rate <= 100,
        r.scan_metadata.collection_summary.error_count
            <= r.scan_metadata.collection_summary.total_logs,
{
    let mut results = ScanResults::new(hostname, os_version);
    let mut logger = Logger::new(verbose);
    logger.info("Starting forensic data collection");
    // System information first, so metadata survives partial failure.
    let (system_info, sys_logs) = crate::system_info::collect_system_info(
        inputs.username,
        inputs.domain,
    );
    results.artifacts.system_info = system_info;
    append_logs(&mut results, sys_logs);
    // Processes before network, so connections can carry process names.
    let (procs, proc_logs) = crate::processes::collect_processes(inputs.processes);
    results.artifacts.running_processes = procs;
    append_logs(&mut results, proc_logs);
    let (conns, net_logs) = crate::network::collect_network_connections(
        inputs.tcp_rows,
        inputs.udp_rows,
    );
    let named_conns = fill_process_names(conns, &results.artifacts.running_processes);
    results.artifacts.network_connections = named_conns;
    append_logs(&mut results, net_logs);
    let (mechs, persist_logs) = crate::persistence::collect_persistence_mechanisms(
        inputs.reg_keys,
        inputs.startup_folders,
        inputs.services,
        inputs.tasks_csv,
    );
    results.artifacts.persistence_mechanisms = mechs;
    append_logs(&mut results, persist_logs);
    let sec_filter = crate::event_logs::get_security_event_filter();
    let sys_filter = crate::event_logs::get_system_event_filter();
    let app_filter = crate::event_logs::get_application_event_filter();
    proof {
        if inputs.security_events is Ok {
            crate::event_logs::lemma_kept_count_view(
                sec_filter.entries@,
                crate::event_logs::sec_filter_entries(),
                inputs.security_events->Ok_0@,
            );
        }
        if inputs.system_events is Ok {
            crate::event_logs::lemma_kept_count_view(
                sys_filter.entries@,
                crate::event_logs::sys_filter_entries(),
                inputs.system_events->Ok_0@,
            );
        }
        if inputs.application_events is Ok {
            crate::event_logs::lemma_kept_count_view(
                app_filter.entries@,
                crate::event_logs::app_filter_entries(),
                inputs.application_events->Ok_0@,
            );
        }
    }
    let (event_logs, ev_logs) = crate::event_logs::collect_event_logs(
        inputs.security_events,
        inputs.system_events,
        inputs.application_events,
        &sec_filter,
        &sys_filter,
        &app_filter,
    );
    results.artifacts.event_logs = event_logs;
    append_logs(&mut results, ev_logs);
    let (prefetch_files, pf_audit) = crate::prefetch::collect_prefetch_files(
        inputs.prefetch_files,
    );
    results.artifacts.execution_evidence.prefetch_files = prefetch_files;
    let pf_logs = audits_to_logs(&pf_audit);
    append_logs(&mut results, pf_logs);
    let (shimcache_entries, sc_audit) = crate::shimcache::collect_shimcache_entries(
        inputs.shimcache_blobs,
    );
    results.artifacts.execution_evidence.shimcache_entries = shimcache_entries;
    let sc_logs = audits_to_logs(&sc_audit);
    append_logs(&mut results, sc_logs);
    // Totals, duration, and the collection summary.
    let total: u128 = results.artifacts.running_processes.len() as u128
        + results.artifacts.network_connections.len() as u128
        + results.artifacts.persistence_mechanisms.len() as u128
        + results.artifacts.event_logs.security.len() as u128
        + results.artifacts.event_logs.system.len() as u128
        + results.artifacts.event_logs.application.len() as u128
        + results.artifacts.execution_evidence.prefetch_files.len() as u128
        + results.artifacts.execution_evidence.shimcache_entries.len() as u128;
    results.scan_metadata.total_artifacts = if total <= 0xffffffffffffffffu128 {
        total as u64
    } else {
        u64::MAX
    };
    {
        let mut m = "Total artifacts collected: ".to_owned();
        let num = crate::strutil::u64_to_string(results.scan_metadata.total_artifacts);
        m.append(num.as_str());
        logger.info(m.as_str());
    }
    results.finalize_scan();
    let logger_entries = logger.get_entries();
    proof {
        assert(forall|i: int|
            0 <= i < logger_entries@.len() ==> log_entry_wf(#[trigger] logger_entries@[i]));
    }
    append_logs(&mut results, logger_entries);
    // The summary covers the whole collection log, collector entries
    // included, so ERROR entries from failed sources drive the summary
    // and, through it, the shell's exit code.
    let (err_count, warn_count) = count_log_levels(&results.collection_log);
    let total_logs = results.collection_log.len();
    let rate: u64 = if total_logs == 0 {
        100
    } else {
        proof {
            let t = total_logs as int;
            let e = err_count as int;
            assert(0 <= (t - e) * 100 / t <= 100) by (nonlinear_arith)
                requires
                    0 < t,
                    0 <= e <= t,
            ;
        }
        (((total_logs - err_count) as u128 * 100) / (total_logs as u128)) as u64
    };
    results.scan_metadata.collection_summary = CollectionSummary {
        total_logs: total_logs as u64,
        error_count: err_count as u64,
        warning_count: warn_count as u64,
        success_rate: rate,
    };
    results
}

/// Splitting the collection filter: comma-separated names, trimmed,
/// ASCII-lower-cased, empties dropped.
pub open spec fn filter_split(s: Seq<char>, i: int, cur: Seq<char>) -> Seq<Seq<char>>
    decreases s.len() - i,
{
    if i < 0 || i >= s.len() {
        if norm_item(cur).len() > 0 {
            seq![norm_item(cur)]
        } else {
            Seq::empty()
        }
    } else if s[i] == ',' {
        (if norm_item(cur).len() > 0 {
            seq![norm_item(cur)]
        } else {
            Seq::empty()
        }) + filter_split(s, i + 1, Seq::empty())
    } else {
        filter_split(s, i + 1, cur.push(s[i]))
    }
}

/// One filter item, normalized: trimmed and ASCII-lower-cased.
pub open spec fn norm_item(cur: Seq<char>) -> Seq<char> {
    trim_chars(cur).map_values(|c: char| lower_char(c))
}

/// Parses the `--only` collection filter: comma-separated artifact names,
/// trimmed and lower-cased, with empty items dropped; `None` yields the
/// empty filter.
pub fn parse_collection_filter(only_arg: &Option<String>) -> (r: Vec<String>)
    ensures
        match only_arg {
            Some(s) => r.deep_view() == filter_split(s@, 0, Seq::empty()),
            None => r@.len() == 0,
        },
{
    let arg = match only_arg {
        Some(s) => s,
        None => {
            return Vec::new();
        },
    };
    let cs = str_chars(arg.as_str());
    let n = cs.len();
    let mut fields: Vec<String> = Vec::new();
    let mut cur: Vec<char> = Vec::new();
    let mut i: usize = 0;
    while i < n
        invariant
            n == cs@.len(),
            cs@ == arg@,
            i <= n,
            fields.deep_view() + filter_split(arg@, i as int, cur@) == filter_split(
                arg@,
                0,
                Seq::empty(),
            ),
        decreases n - i,
    {
        let c = cs[i];
        if c == ',' {
            let ghost pre = fields.deep_view();
            let ghost cur_pre = cur@;
            push_normalized(&mut fields, &cur);
            cur = Vec::new();
            proof {
                if norm_item(cur_pre).len() > 0 {
                    assert(fields.deep_view() =~= pre.push(norm_item(cur_pre)));
                } else {
                    assert(fields.deep_view() =~= pre);
                }
            }
        } else {
            cur.push(c);
        }
        i = i + 1;
        proof {
            assert(fields.deep_view() + filter_split(arg@, i as int, cur@) =~= filter_split(
                arg@,
                0,
                Seq::empty(),
            ));
        }
    }
    let ghost pre = fields.deep_view();
    let ghost cur_pre = cur@;
    push_normalized(&mut fields, &cur);
    proof {
        if norm_item(cur_pre).len() > 0 {
            assert(fields.deep_view() =~= pre.push(norm_item(cur_pre)));
        } else {
            assert(fields.deep_view() =~= pre);
        }
        assert(fields.deep_view() =~= filter_split(arg@, 0, Seq::empty()));
    }
    fields
}

/// Pushes the normalized item, unless it is empty.
fn push_normalized(fields: &mut Vec<String>, cur: &Vec<char>)
    ensures
        norm_item(cur@).len() > 0 ==> (final(fields)@.len() == old(fields)@.len() + 1 && final(
            fields).deep_view() == old(fields).deep_view().push(norm_item(cur@))),
        norm_item(cur@).len() == 0 ==> (final(fields)@ == old(fields)@ && final(
            fields).deep_view() == old(fields).deep_view()),
{
    let trimmed = trim_char_slice(cur.as_slice());
    let mut lowered: Vec<char> = Vec::new();
    let n = trimmed.len();
    for k in 0..n
        invariant
            n == trimmed@.len(),
            trimmed@ == trim_chars(cur@),
            lowered@ =~= norm_item(cur@).take(k as int),
    {
        lowered.push(lower_char_of(trimmed[k]));
        assert(lowered@ =~= norm_item(cur@).take(k + 1));
    }
    proof {
        assert(norm_item(cur@).take(n as int) =~= norm_item(cur@));
    }
    if lowered.len() > 0 {
        let ghost pre_dv = fields.deep_view();
        fields.push(chars_to_string(lowered.as_slice()));
        proof {
            assert(fields.deep_view() =~= pre_dv.push(norm_item(cur@)));
        }
    }
}

} // verus!
