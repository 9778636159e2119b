//! Canonical record shapes of the scan report, with their validity
//! predicates and constructors.

use vstd::prelude::*;
use crate::strutil::{
    str_bytes, contains_seq_ci, starts_with_seq, port_of, str_contains_ci, str_starts_with,
    str_slice, rfind_byte, parse_u16_or_zero, lemma_str_bytes_valid, lemma_ascii_boundary,
};
use crate::wellformed::{is_rfc3339, is_uuid_v4};
use crate::wrappers::{now_rfc3339, new_scan_id};

verus! {

/// Root structure: everything one scan produces.
#[derive(Debug, Clone)]
pub struct ScanResults {
    pub scan_metadata: ScanMetadata,
    pub artifacts: Artifacts,
    pub collection_log: Vec<LogEntry>,
}

/// Metadata about the scan run.
#[derive(Debug, Clone)]
pub struct ScanMetadata {
    /// Unique identifier for this scan (version-4 UUID).
    pub scan_id: String,
    /// RFC 3339 timestamp at which the scan started.
    pub scan_start_utc: String,
    /// Total scan duration in milliseconds.
    pub scan_duration_ms: u64,
    /// Target system hostname.
    pub hostname: String,
    /// Operating system version information.
    pub os_version: String,
    /// Version of the collection engine.
    pub cli_version: String,
    /// Sum of the artifact counts across all collections.
    pub total_artifacts: u64,
    /// Summary of the collection log.
    pub collection_summary: CollectionSummary,
}

/// Counts over the collection log, with an integer success percentage.
#[derive(Debug, Clone)]
pub struct CollectionSummary {
    pub total_logs: u64,
    pub error_count: u64,
    pub warning_count: u64,
    /// `100 * (total - errors) / total`, and 100 when the log is empty.
    pub success_rate: u64,
}

/// Container for all collected artifacts.
#[derive(Debug, Clone)]
pub struct Artifacts {
    pub system_info: SystemInfo,
    pub running_processes: Vec<Process>,
    pub network_connections: Vec<NetworkConnection>,
    pub persistence_mechanisms: Vec<PersistenceMechanism>,
    pub event_logs: EventLogs,
    pub execution_evidence: ExecutionEvidence,
}

/// Execution-evidence artifacts: prefetch files and shimcache entries.
#[derive(Debug, Clone)]
pub struct ExecutionEvidence {
    pub prefetch_files: Vec<crate::forensic_types::PrefetchFile>,
    pub shimcache_entries: Vec<crate::forensic_types::ShimcacheEntry>,
}

/// System information and current state.
#[derive(Debug, Clone)]
pub struct SystemInfo {
    /// System uptime in seconds.
    pub uptime_secs: u64,
    /// Currently logged-on users.
    pub logged_on_users: Vec<LoggedOnUser>,
}

/// One logged-on user.
#[derive(Debug, Clone)]
pub struct LoggedOnUser {
    pub username: String,
    /// Domain or computer name.
    pub domain: String,
    /// Logon timestamp, RFC 3339.
    pub logon_time: String,
}

/// One module loaded in a process.
#[derive(Debug, Clone)]
pub struct ProcessModule {
    /// Module name, e.g. `kernel32.dll`.
    pub name: String,
    /// Full path of the module file.
    pub file_path: String,
    /// Base address the module is loaded at, as a hex string.
    pub base_address: String,
    /// Size of the module in memory.
    pub size: u32,
    /// Module version, where available.
    pub version: String,
}

/// One running process.
#[derive(Debug, Clone)]
pub struct Process {
    pub pid: u32,
    pub parent_pid: u32,
    pub name: String,
    pub command_line: String,
    /// Path of the executable, or the sentinel `N/A`.
    pub executable_path: String,
    /// SHA-256 of the executable: 64 lower-hex characters, `N/A` when there
    /// is no path, `ERROR` when the file could not be read.
    pub sha256_hash: String,
    /// Account the process runs as.
    pub user: String,
    /// Memory usage in KiB.
    pub memory_usage_kb: u64,
    /// Loaded modules.
    pub loaded_modules: Vec<ProcessModule>,
}

/// One network connection.
#[derive(Debug)]
pub struct NetworkConnection {
    /// `TCP` or `UDP`.
    pub protocol: String,
    pub local_address: String,
    pub local_port: u16,
    pub remote_address: String,
    pub remote_port: u16,
    /// Connection state, for TCP.
    pub state: String,
    /// Process that owns the connection.
    pub owning_pid: u32,
    pub process_name: String,
}

/// One persistence mechanism.
#[derive(Debug)]
pub struct PersistenceMechanism {
    pub mechanism_type: String,
    pub name: String,
    pub command: String,
    /// Origin, e.g. a registry path or the task scheduler.
    pub source: String,
    pub location: String,
    pub value: String,
    pub is_suspicious: bool,
}

impl Clone for PersistenceMechanism {
    /// An equal record.
    fn clone(&self) -> (r: PersistenceMechanism)
        ensures
            r == *self,
    {
        PersistenceMechanism {
            mechanism_type: self.mechanism_type.clone(),
            name: self.name.clone(),
            command: self.command.clone(),
            source: self.source.clone(),
            location: self.location.clone(),
            value: self.value.clone(),
            is_suspicious: self.is_suspicious,
        }
    }
}

/// The fixed persistence-mechanism categories.
#[derive(Debug, Clone)]
pub enum PersistenceType {
    RegistryRunKey,
    RegistryRunKeyUser,
    ScheduledTask,
    Service,
    StartupFolder,
    WMIEventConsumer,
}

/// The three Windows event-log collections.
#[derive(Debug, Clone)]
pub struct EventLogs {
    pub security: Vec<EventLogEntry>,
    pub system: Vec<EventLogEntry>,
    pub application: Vec<EventLogEntry>,
}

/// One event-log entry.
#[derive(Debug)]
pub struct EventLogEntry {
    pub event_id: u32,
    /// `Information`, `Warning`, `Error`, `Audit Success`, `Audit Failure`
    /// or `Unknown`.
    pub level: String,
    /// RFC 3339.
    pub timestamp: String,
    pub message: String,
    /// The log the entry came from.
    pub source: String,
}

impl Clone for EventLogEntry {
    /// An equal entry.
    fn clone(&self) -> (r: EventLogEntry)
        ensures
            r == *self,
    {
        EventLogEntry {
            event_id: self.event_id,
            level: self.level.clone(),
            timestamp: self.timestamp.clone(),
            message: self.message.clone(),
            source: self.source.clone(),
        }
    }
}

/// One collection-log entry.
#[derive(Debug)]
pub struct LogEntry {
    /// RFC 3339.
    pub timestamp: String,
    /// `INFO`, `WARN` or `ERROR`.
    pub level: String,
    pub message: String,
}

impl Clone for LogEntry {
    /// An equal entry.
    fn clone(&self) -> (r: LogEntry)
        ensures
            r == *self,
    {
        LogEntry {
            timestamp: self.timestamp.clone(),
            level: self.level.clone(),
            message: self.message.clone(),
        }
    }
}

/// Collection-log levels.
#[derive(Debug, Clone)]
pub enum LogLevel {
    Info,
    Warn,
    Error,
}

/// A well-formed collection-log entry: one of the three levels, and an
/// RFC 3339 timestamp.
pub open spec fn log_entry_wf(e: LogEntry) -> bool {
    &&& (e.level@ == "INFO"@ || e.level@ == "WARN"@ || e.level@ == "ERROR"@)
    &&& is_rfc3339(str_bytes(e.timestamp@))
}

/// The log entries carry exactly the expected (level, message) pairs, in
/// order, and each is well-formed.
pub open spec fn logs_match(entries: Seq<LogEntry>, expect: Seq<(Seq<char>, Seq<char>)>) -> bool {
    &&& entries.len() == expect.len()
    &&& forall|i: int|
        0 <= i < entries.len() ==> (#[trigger] entries[i]).level@ == expect[i].0 && entries[i].message@
            == expect[i].1 && log_entry_wf(entries[i])
}

impl ScanResults {
    /// Starts a scan: a fresh version-4 scan id, the current instant as the
    /// start timestamp, empty artifacts, an empty log.
    pub fn new(hostname: String, os_version: String) -> (r: ScanResults)
        ensures
            is_uuid_v4(str_bytes(r.scan_metadata.scan_id@)),
            crate::wellformed::is_uuid_hyphenated(str_bytes(r.scan_metadata.scan_id@)),
            is_rfc3339(str_bytes(r.scan_metadata.scan_start_utc@)),
            r.scan_metadata.scan_duration_ms == 0,
            r.scan_metadata.hostname == hostname,
            r.scan_metadata.os_version == os_version,
            r.scan_metadata.total_artifacts == 0,
            r.artifacts.running_processes@.len() == 0,
            r.artifacts.network_connections@.len() == 0,
            r.artifacts.persistence_mechanisms@.len() == 0,
            r.artifacts.event_logs.security@.len() == 0,
            r.artifacts.event_logs.system@.len() == 0,
            r.artifacts.event_logs.application@.len() == 0,
            r.artifacts.execution_evidence.prefetch_files@.len() == 0,
            r.artifacts.execution_evidence.shimcache_entries@.len() == 0,
            r.artifacts.system_info.logged_on_users@.len() == 0,
            r.collection_log@.len() == 0,
    {
        ScanResults {
            scan_metadata: ScanMetadata {
                scan_id: new_scan_id(),
                scan_start_utc: now_rfc3339(),
                scan_duration_ms: 0,
                hostname,
                os_version,
                cli_version: "0.1.0".to_owned(),
                total_artifacts: 0,
                collection_summary: CollectionSummary {
                    total_logs: 0,
                    error_count: 0,
                    warning_count: 0,
                    success_rate: 100,
                },
            },
            artifacts: Artifacts::default(),
            collection_log: Vec::new(),
        }
    }

    /// Sets the scan duration from the wall clock, touching nothing else.
    pub fn finalize_scan(&mut self)
        ensures
            final(self).scan_metadata.scan_id == old(self).scan_metadata.scan_id,
            final(self).scan_metadata.scan_start_utc == old(self).scan_metadata.scan_start_utc,
            final(self).scan_metadata.hostname == old(self).scan_metadata.hostname,
            final(self).scan_metadata.os_version == old(self).scan_metadata.os_version,
            final(self).scan_metadata.cli_version == old(self).scan_metadata.cli_version,
            final(self).scan_metadata.total_artifacts == old(self).scan_metadata.total_artifacts,
            final(self).scan_metadata.collection_summary == old(
                self,
            ).scan_metadata.collection_summary,
            final(self).artifacts == old(self).artifacts,
            final(self).collection_log == old(self).collection_log,
    {
        let ms: u64 = match crate::wrappers::elapsed_ms_since(
            self.scan_metadata.scan_start_utc.as_str(),
        ) {
            Some(signed) => if signed >= 0 {
                signed as u64
            } else {
                0
            },
            None => 0,
        };
        self.scan_metadata.scan_duration_ms = ms;
    }

    /// Appends one entry to the collection log.
    pub fn add_log(&mut self, entry: LogEntry)
        ensures
            final(self).collection_log@ == old(self).collection_log@.push(entry),
            final(self).scan_metadata == old(self).scan_metadata,
            final(self).artifacts == old(self).artifacts,
    {
        self.collection_log.push(entry);
    }

    /// Checks the report invariants: a non-empty scan id in the standard
    /// hyphenated UUID form of either case (the 8-4-4-4-12 shape the
    /// schema pins; version is not checked here), a non-empty hostname,
    /// and an RFC 3339 start timestamp.
    pub fn validate(&self) -> (r: Result<(), String>)
        ensures
            r is Ok <==> self.scan_metadata.scan_id@.len() > 0
                && self.scan_metadata.hostname@.len() > 0 && crate::wellformed::is_uuid_hyphenated(
                str_bytes(self.scan_metadata.scan_id@),
            ) && is_rfc3339(str_bytes(self.scan_metadata.scan_start_utc@)),
            r matches Err(e) ==> e@ == (if self.scan_metadata.scan_id@.len() == 0 {
                "Scan ID cannot be empty"@
            } else if self.scan_metadata.hostname@.len() == 0 {
                "Hostname cannot be empty"@
            } else if !crate::wellformed::is_uuid_hyphenated(
                str_bytes(self.scan_metadata.scan_id@),
            ) {
                "Invalid UUID format for scan_id"@
            } else {
                "Invalid timestamp format for scan_start_utc"@
            }),
    {
        if self.scan_metadata.scan_id.as_str().is_empty() {
            proof {
                assert(str_bytes(self.scan_metadata.scan_id@).len() == 0);
            }
            return Err("Scan ID cannot be empty".to_owned());
        }
        if self.scan_metadata.hostname.as_str().is_empty() {
            return Err("Hostname cannot be empty".to_owned());
        }
        if !crate::wellformed::check_uuid_hyphenated(self.scan_metadata.scan_id.as_str()) {
            return Err("Invalid UUID format for scan_id".to_owned());
        }
        if !crate::wellformed::check_rfc3339(self.scan_metadata.scan_start_utc.as_str()) {
            return Err("Invalid timestamp format for scan_start_utc".to_owned());
        }
        proof {
            lemma_nonempty_bytes(self.scan_metadata.scan_id@);
            lemma_nonempty_bytes(self.scan_metadata.hostname@);
        }
        Ok(())
    }
}

/// A fresh report validates: given a non-empty hostname, the stamped
/// version-4 scan identifier and RFC 3339 start instant are exactly what
/// validation checks, so `validate` returns `Ok` on any report carrying
/// them unchanged.
pub proof fn lemma_fresh_report_validates(r: ScanResults)
    requires
        is_uuid_v4(str_bytes(r.scan_metadata.scan_id@)),
        is_rfc3339(str_bytes(r.scan_metadata.scan_start_utc@)),
        r.scan_metadata.hostname@.len() > 0,
    ensures
        r.scan_metadata.scan_id@.len() > 0,
        crate::wellformed::is_uuid_hyphenated(str_bytes(r.scan_metadata.scan_id@)),
{
    crate::wellformed::lemma_uuid_v4_hyphenated(str_bytes(r.scan_metadata.scan_id@));
    lemma_nonempty_bytes(r.scan_metadata.scan_id@);
}

/// A text has bytes exactly when it has characters.
proof fn lemma_nonempty_bytes(s: Seq<char>)
    ensures
        str_bytes(s).len() > 0 <==> s.len() > 0,
    decreases s.len(),
{
    if s.len() > 0 {
        vstd::utf8::encode_utf8_first_scalar(s);
    }
}

impl Default for Artifacts {
    /// Empty artifact collections.
    fn default() -> (r: Artifacts)
        ensures
            r.running_processes@.len() == 0,
            r.network_connections@.len() == 0,
            r.persistence_mechanisms@.len() == 0,
            r.event_logs.security@.len() == 0,
            r.event_logs.system@.len() == 0,
            r.event_logs.application@.len() == 0,
            r.execution_evidence.prefetch_files@.len() == 0,
            r.execution_evidence.shimcache_entries@.len() == 0,
            r.system_info.uptime_secs == 0,
            r.system_info.logged_on_users@.len() == 0,
    {
        Artifacts {
            system_info: SystemInfo::default(),
            running_processes: Vec::new(),
            network_connections: Vec::new(),
            persistence_mechanisms: Vec::new(),
            event_logs: EventLogs::default(),
            execution_evidence: ExecutionEvidence::default(),
        }
    }
}

impl Default for SystemInfo {
    /// Zero uptime and no users.
    fn default() -> (r: SystemInfo)
        ensures
            r.uptime_secs == 0,
            r.logged_on_users@.len() == 0,
    {
        SystemInfo { uptime_secs: 0, logged_on_users: Vec::new() }
    }
}

impl Default for EventLogs {
    /// All three logs empty.
    fn default() -> (r: EventLogs)
        ensures
            r.security@.len() == 0,
            r.system@.len() == 0,
            r.application@.len() == 0,
    {
        EventLogs { security: Vec::new(), system: Vec::new(), application: Vec::new() }
    }
}

impl Default for ExecutionEvidence {
    /// No prefetch files and no shimcache entries.
    fn default() -> (r: ExecutionEvidence)
        ensures
            r.prefetch_files@.len() == 0,
            r.shimcache_entries@.len() == 0,
    {
        ExecutionEvidence { prefetch_files: Vec::new(), shimcache_entries: Vec::new() }
    }
}

impl Artifacts {
    /// Total artifact count: processes, connections, persistence
    /// mechanisms, the three event logs, prefetch files and shimcache
    /// entries.
    pub fn total_artifact_count(&self) -> (r: usize)
        requires
            self.running_processes@.len() + self.network_connections@.len()
                + self.persistence_mechanisms@.len() + self.event_logs.security@.len()
                + self.event_logs.system@.len() + self.event_logs.application@.len()
                + self.execution_evidence.prefetch_files@.len()
                + self.execution_evidence.shimcache_entries@.len() <= usize::MAX,
        ensures
            r == self.running_processes@.len() + self.network_connections@.len()
                + self.persistence_mechanisms@.len() + self.event_logs.security@.len()
                + self.event_logs.system@.len() + self.event_logs.application@.len()
                + self.execution_evidence.prefetch_files@.len()
                + self.execution_evidence.shimcache_entries@.len(),
    {
        self.running_processes.len() + self.network_connections.len()
            + self.persistence_mechanisms.len() + self.event_logs.security.len()
            + self.event_logs.system.len() + self.event_logs.application.len()
            + self.execution_evidence.prefetch_files.len()
            + self.execution_evidence.shimcache_entries.len()
    }
}

impl EventLogs {
    /// Entries across the three logs.
    pub fn total_entries(&self) -> (r: usize)
        requires
            self.security@.len() + self.system@.len() + self.application@.len() <= usize::MAX,
        ensures
            r == self.security@.len() + self.system@.len() + self.application@.len(),
    {
        self.security.len() + self.system.len() + self.application.len()
    }
}

impl LoggedOnUser {
    pub fn new(username: String, domain: String, logon_time: String) -> (r: LoggedOnUser)
        ensures
            r.username == username,
            r.domain == domain,
            r.logon_time == logon_time,
    {
        LoggedOnUser { username, domain, logon_time }
    }
}

impl ProcessModule {
    pub fn new(name: String, file_path: String, base_address: String, size: u32, version: String)
        -> (r: ProcessModule)
        ensures
            r.name == name,
            r.file_path == file_path,
            r.base_address == base_address,
            r.size == size,
            r.version == version,
    {
        ProcessModule { name, file_path, base_address, size, version }
    }

    /// Whether the module lives under the Windows system or side-by-side
    /// directories, case-insensitively.
    pub fn is_system_module(&self) -> (r: bool)
        ensures
            r == (contains_seq_ci(str_bytes(self.file_path@), str_bytes("\\windows\\system32\\"@))
                || contains_seq_ci(
                str_bytes(self.file_path@),
                str_bytes("\\windows\\syswow64\\"@),
            ) || contains_seq_ci(str_bytes(self.file_path@), str_bytes("\\windows\\winsxs\\"@))),
    {
        let p = self.file_path.as_str();
        str_contains_ci(p, "\\windows\\system32\\") || str_contains_ci(p, "\\windows\\syswow64\\")
            || str_contains_ci(p, "\\windows\\winsxs\\")
    }
}

impl Process {
    /// A process record with hash, user, memory and modules still unset.
    pub fn new(
        pid: u32,
        parent_pid: u32,
        name: String,
        command_line: String,
        executable_path: String,
    ) -> (r: Process)
        ensures
            r.pid == pid,
            r.parent_pid == parent_pid,
            r.name == name,
            r.command_line == command_line,
            r.executable_path == executable_path,
            r.sha256_hash@.len() == 0,
            r.user@.len() == 0,
            r.memory_usage_kb == 0,
            r.loaded_modules@.len() == 0,
    {
        Process {
            pid,
            parent_pid,
            name,
            command_line,
            executable_path,
            sha256_hash: String::new(),
            user: String::new(),
            memory_usage_kb: 0,
            loaded_modules: Vec::new(),
        }
    }

    /// A process record carrying user and memory, with hash and modules
    /// still unset.
    pub fn new_with_user_memory(
        pid: u32,
        parent_pid: u32,
        name: String,
        command_line: String,
        executable_path: String,
        user: String,
        memory_usage_kb: u64,
    ) -> (r: Process)
        ensures
            r.pid == pid,
            r.parent_pid == parent_pid,
            r.name == name,
            r.command_line == command_line,
            r.executable_path == executable_path,
            r.sha256_hash@.len() == 0,
            r.user == user,
            r.memory_usage_kb == memory_usage_kb,
            r.loaded_modules@.len() == 0,
    {
        Process {
            pid,
            parent_pid,
            name,
            command_line,
            executable_path,
            sha256_hash: String::new(),
            user,
            memory_usage_kb,
            loaded_modules: Vec::new(),
        }
    }

    /// The record names a real executable path: non-empty and not the
    /// `N/A` sentinel.
    pub fn has_executable_path(&self) -> (r: bool)
        ensures
            r == (self.executable_path@.len() > 0 && self.executable_path@ != "N/A"@),
    {
        !self.executable_path.as_str().is_empty() && !eq_str(self.executable_path.as_str(), "N/A")
    }

    /// Count of loaded modules.
    pub fn module_count(&self) -> (r: usize)
        ensures
            r == self.loaded_modules@.len(),
    {
        self.loaded_modules.len()
    }
}

/// String equality through `str` views.
pub fn eq_str(a: &str, b: &str) -> (r: bool)
    ensures
        r == (a@ == b@),
{
    let ra = a.to_owned();
    let rb = b.to_owned();
    ra == rb
}

/// Splits `addr:port` at the last colon; anything without a colon keeps the
/// whole text as the address, with port 0.
pub fn extract_address_and_port(addr_port: &str) -> (r: (String, u16))
    ensures
        ({
            let b = str_bytes(addr_port@);
            match last_colon(b) {
                Some(i) => str_bytes(r.0@) == b.subrange(0, i) && r.1 == port_of(
                    b.subrange(i + 1, b.len() as int),
                ),
                None => str_bytes(r.0@) == b && r.1 == 0,
            }
        }),
{
    proof {
        lemma_str_bytes_valid(addr_port@);
    }
    let bytes = addr_port.as_bytes();
    match rfind_byte(bytes, 0x3a) {
        Some(i) => {
            proof {
                assert(last_colon(str_bytes(addr_port@)) == Some(i as int));
                lemma_ascii_boundary(str_bytes(addr_port@), i as int);
                assert(crate::strutil::str_bytes(addr_port@).len() > 0);
                assert(vstd::utf8::is_char_boundary(str_bytes(addr_port@), 0));
                lemma_ascii_boundary(
                    str_bytes(addr_port@),
                    str_bytes(addr_port@).len() as int,
                );
                crate::strutil::lemma_boundary_after_ascii(str_bytes(addr_port@), i as int);
            }
            let head = str_slice(addr_port, 0, i);
            let n = bytes.len();
            let port_part = str_slice(addr_port, i + 1, n);
            let port = parse_u16_or_zero(port_part.as_bytes());
            (head.to_owned(), port)
        },
        None => {
            proof {
                assert(last_colon(str_bytes(addr_port@)) is None);
            }
            (addr_port.to_owned(), 0)
        },
    }
}

/// Index of the last colon byte, if any.
pub open spec fn last_colon(b: Seq<u8>) -> Option<int> {
    if exists|i: int| 0 <= i < b.len() && b[i] == 0x3a {
        let i = choose|i: int|
            0 <= i < b.len() && b[i] == 0x3a && forall|k: int| i < k < b.len() ==> b[k] != 0x3a;
        Some(i)
    } else {
        None
    }
}

impl NetworkConnection {
    /// Builds a connection from `addr:port` strings, extracting the ports.
    pub fn new(
        protocol: String,
        local_address: String,
        remote_address: String,
        state: String,
        owning_pid: u32,
    ) -> (r: NetworkConnection)
        ensures
            r.protocol == protocol,
            r.state == state,
            r.owning_pid == owning_pid,
            r.process_name@.len() == 0,
    {
        let (local_addr, local_port) = extract_address_and_port(local_address.as_str());
        let (remote_addr, remote_port) = extract_address_and_port(remote_address.as_str());
        NetworkConnection {
            protocol,
            local_address: local_addr,
            local_port,
            remote_address: remote_addr,
            remote_port,
            state,
            owning_pid,
            process_name: String::new(),
        }
    }

    /// Builds a connection from already-split fields.
    pub fn new_with_ports_and_process(
        protocol: String,
        local_address: String,
        local_port: u16,
        remote_address: String,
        remote_port: u16,
        state: String,
        owning_pid: u32,
        process_name: String,
    ) -> (r: NetworkConnection)
        ensures
            r.protocol == protocol,
            r.local_address == local_address,
            r.local_port == local_port,
            r.remote_address == remote_address,
            r.remote_port == remote_port,
            r.state == state,
            r.owning_pid == owning_pid,
            r.process_name == process_name,
    {
        NetworkConnection {
            protocol,
            local_address,
            local_port,
            remote_address,
            remote_port,
            state,
            owning_pid,
            process_name,
        }
    }

    /// The remote end is outside this host: not loopback, not the
    /// unspecified address, and not the UDP placeholder.
    pub fn is_external(&self) -> (r: bool)
        ensures
            r == spec_is_external(self.remote_address@),
    {
        let ra = self.remote_address.as_str();
        !str_starts_with(ra, "127.0.0.1") && !str_starts_with(ra, "::1") && !str_starts_with(
            ra,
            "0.0.0.0",
        ) && !eq_str(ra, "*")
    }
}

/// The external-remote predicate of [`NetworkConnection::is_external`].
pub open spec fn spec_is_external(remote: Seq<char>) -> bool {
    &&& !starts_with_seq(str_bytes(remote), str_bytes("127.0.0.1"@))
    &&& !starts_with_seq(str_bytes(remote), str_bytes("::1"@))
    &&& !starts_with_seq(str_bytes(remote), str_bytes("0.0.0.0"@))
    &&& remote != "*"@
}

impl Clone for NetworkConnection {
    /// An equal record.
    fn clone(&self) -> (r: NetworkConnection)
        ensures
            r == *self,
    {
        NetworkConnection {
            protocol: self.protocol.clone(),
            local_address: self.local_address.clone(),
            local_port: self.local_port,
            remote_address: self.remote_address.clone(),
            remote_port: self.remote_port,
            state: self.state.clone(),
            owning_pid: self.owning_pid,
            process_name: self.process_name.clone(),
        }
    }
}

impl PersistenceMechanism {
    /// A mechanism with location and value still unset, not yet analysed.
    pub fn new(mechanism_type: String, name: String, command: String, source: String) -> (r:
        PersistenceMechanism)
        ensures
            r.mechanism_type == mechanism_type,
            r.name == name,
            r.command == command,
            r.source == source,
            r.location@.len() == 0,
            r.value@.len() == 0,
            r.is_suspicious == false,
    {
        PersistenceMechanism {
            mechanism_type,
            name,
            command,
            source,
            location: String::new(),
            value: String::new(),
            is_suspicious: false,
        }
    }

    /// A fully-populated mechanism.
    pub fn new_with_location_value(
        mechanism_type: String,
        name: String,
        command: String,
        source: String,
        location: String,
        value: String,
        is_suspicious: bool,
    ) -> (r: PersistenceMechanism)
        ensures
            r.mechanism_type == mechanism_type,
            r.name == name,
            r.command == command,
            r.source == source,
            r.location == location,
            r.value == value,
            r.is_suspicious == is_suspicious,
    {
        PersistenceMechanism {
            mechanism_type,
            name,
            command,
            source,
            location,
            value,
            is_suspicious,
        }
    }
}

impl PersistenceType {
    /// The canonical name of the category.
    pub fn as_str(&self) -> (r: &'static str)
        ensures
            r@ == spec_persistence_type_str(*self),
    {
        match self {
            PersistenceType::RegistryRunKey => "Registry Run Key",
            PersistenceType::RegistryRunKeyUser => "Registry Run Key (User)",
            PersistenceType::ScheduledTask => "Scheduled Task",
            PersistenceType::Service => "Windows Service",
            PersistenceType::StartupFolder => "Startup Folder",
            PersistenceType::WMIEventConsumer => "WMI Event Consumer",
        }
    }
}

/// The canonical name of each persistence category.
pub open spec fn spec_persistence_type_str(t: PersistenceType) -> Seq<char> {
    match t {
        PersistenceType::RegistryRunKey => "Registry Run Key"@,
        PersistenceType::RegistryRunKeyUser => "Registry Run Key (User)"@,
        PersistenceType::ScheduledTask => "Scheduled Task"@,
        PersistenceType::Service => "Windows Service"@,
        PersistenceType::StartupFolder => "Startup Folder"@,
        PersistenceType::WMIEventConsumer => "WMI Event Consumer"@,
    }
}

impl EventLogEntry {
    /// An entry whose source is not yet known.
    pub fn new(event_id: u32, level: String, timestamp: String, message: String) -> (r:
        EventLogEntry)
        ensures
            r.event_id == event_id,
            r.level == level,
            r.timestamp == timestamp,
            r.message == message,
            r.source@ == "Unknown"@,
    {
        EventLogEntry { event_id, level, timestamp, message, source: "Unknown".to_owned() }
    }

    /// An entry tagged with its source log.
    pub fn new_with_source(
        event_id: u32,
        level: String,
        timestamp: String,
        message: String,
        source: String,
    ) -> (r: EventLogEntry)
        ensures
            r.event_id == event_id,
            r.level == level,
            r.timestamp == timestamp,
            r.message == message,
            r.source == source,
    {
        EventLogEntry { event_id, level, timestamp, message, source }
    }
}

impl LogEntry {
    /// An entry stamped with the current instant.
    pub fn new(level: &str, message: &str) -> (r: LogEntry)
        ensures
            r.level@ == level@,
            r.message@ == message@,
            is_rfc3339(str_bytes(r.timestamp@)),
    {
        LogEntry { timestamp: now_rfc3339(), level: level.to_owned(), message: message.to_owned() }
    }

    /// An `INFO` entry.
    pub fn info(message: &str) -> (r: LogEntry)
        ensures
            r.level@ == "INFO"@,
            r.message@ == message@,
            log_entry_wf(r),
    {
        Self::new("INFO", message)
    }

    /// A `WARN` entry.
    pub fn warn(message: &str) -> (r: LogEntry)
        ensures
            r.level@ == "WARN"@,
            r.message@ == message@,
            log_entry_wf(r),
    {
        Self::new("WARN", message)
    }

    /// An `ERROR` entry.
    pub fn error(message: &str) -> (r: LogEntry)
        ensures
            r.level@ == "ERROR"@,
            r.message@ == message@,
            log_entry_wf(r),
    {
        Self::new("ERROR", message)
    }

    /// An `INFO` entry with `{0}`, `{1}`, … placeholders replaced by `args`.
    pub fn info_fmt(message: &str, args: &[String]) -> (r: LogEntry)
        ensures
            r.level@ == "INFO"@,
            log_entry_wf(r),
    {
        let formatted = crate::logger::format_message(message, args);
        Self::info(formatted.as_str())
    }
}

impl LogLevel {
    /// The level's canonical name.
    pub fn as_str(&self) -> (r: &'static str)
        ensures
            r@ == spec_log_level_str(*self),
    {
        match self {
            LogLevel::Info => "INFO",
            LogLevel::Warn => "WARN",
            LogLevel::Error => "ERROR",
        }
    }
}

/// The canonical name of each collection-log level.
pub open spec fn spec_log_level_str(l: LogLevel) -> Seq<char> {
    match l {
        LogLevel::Info => "INFO"@,
        LogLevel::Warn => "WARN"@,
        LogLevel::Error => "ERROR"@,
    }
}

} // verus!
