//! Record shapes for execution-evidence artifacts: prefetch files,
//! shimcache entries, scheduled tasks, and the collectors' audit entries.

use vstd::prelude::*;

verus! {

/// One parsed prefetch file.
#[derive(Debug)]
pub struct PrefetchFile {
    pub filename: String,
    /// The executable the prefetch file belongs to.
    pub executable_name: String,
    pub run_count: u32,
    /// RFC 3339, or `Unknown`.
    pub last_run_time: String,
    /// RFC 3339, or `Unknown`.
    pub creation_time: String,
    pub file_size: u64,
    /// SHA-256 of the whole file, lower-case hex.
    pub hash: String,
    /// Format version, the little-endian word at offset 0.
    pub version: u32,
    pub referenced_files: Vec<String>,
    pub volumes: Vec<VolumeInfo>,
}

/// Volume information carried by a prefetch file.
#[derive(Debug)]
pub struct VolumeInfo {
    pub device_path: String,
    pub volume_name: String,
    pub serial_number: String,
    pub creation_time: String,
}

/// One entry of the application-compatibility cache.
#[derive(Debug)]
pub struct ShimcacheEntry {
    pub path: String,
    /// RFC 3339, `Not set`, or `Invalid timestamp`.
    pub last_modified: String,
    pub file_size: u64,
    /// RFC 3339, `Not set`, or `Invalid timestamp`.
    pub last_update: String,
    /// Execution flag, where the format carries one.
    pub execution_flag: bool,
}

/// One scheduled task.
#[derive(Debug, Clone)]
pub struct ScheduledTask {
    pub name: String,
    pub path: String,
    pub state: String,
    pub last_run_time: String,
    pub next_run_time: String,
    pub run_as_user: String,
    pub command: String,
    pub arguments: String,
    pub working_directory: String,
    pub triggers: Vec<TaskTrigger>,
    pub actions: Vec<TaskAction>,
    pub creation_date: String,
    pub author: String,
    pub description: String,
}

/// One trigger of a scheduled task.
#[derive(Debug, Clone)]
pub struct TaskTrigger {
    pub trigger_type: String,
    pub start_boundary: String,
    pub end_boundary: String,
    pub enabled: bool,
    pub repetition_interval: String,
    pub repetition_duration: String,
}

/// One action of a scheduled task.
#[derive(Debug, Clone)]
pub struct TaskAction {
    pub action_type: String,
    pub path: String,
    pub arguments: String,
    pub working_directory: String,
}

/// One collector-local audit entry; its level may also be `DEBUG`.
#[derive(Debug, Clone)]
pub struct AuditEntry {
    /// RFC 3339.
    pub timestamp: String,
    /// `INFO`, `WARN`, `ERROR` or `DEBUG`.
    pub level: String,
    /// The collector that produced the entry.
    pub component: String,
    pub action: String,
    pub details: String,
    pub duration_ms: Option<u64>,
    pub result: String,
}


impl Clone for VolumeInfo {
    /// An equal record.
    fn clone(&self) -> (r: VolumeInfo)
        ensures
            r == *self,
    {
        VolumeInfo {
            device_path: self.device_path.clone(),
            volume_name: self.volume_name.clone(),
            serial_number: self.serial_number.clone(),
            creation_time: self.creation_time.clone(),
        }
    }
}

impl Clone for ShimcacheEntry {
    /// An equal record.
    fn clone(&self) -> (r: ShimcacheEntry)
        ensures
            r == *self,
    {
        ShimcacheEntry {
            path: self.path.clone(),
            last_modified: self.last_modified.clone(),
            file_size: self.file_size,
            last_update: self.last_update.clone(),
            execution_flag: self.execution_flag,
        }
    }
}

impl Clone for PrefetchFile {
    /// A field-wise equal record.
    fn clone(&self) -> (r: PrefetchFile)
        ensures
            r.filename == self.filename,
            r.executable_name == self.executable_name,
            r.run_count == self.run_count,
            r.last_run_time == self.last_run_time,
            r.creation_time == self.creation_time,
            r.file_size == self.file_size,
            r.hash == self.hash,
            r.version == self.version,
            r.referenced_files@ == self.referenced_files@,
            r.volumes@ == self.volumes@,
    {
        let referenced_files = clone_strings(&self.referenced_files);
        let volumes = clone_volumes(&self.volumes);
        PrefetchFile {
            filename: self.filename.clone(),
            executable_name: self.executable_name.clone(),
            run_count: self.run_count,
            last_run_time: self.last_run_time.clone(),
            creation_time: self.creation_time.clone(),
            file_size: self.file_size,
            hash: self.hash.clone(),
            version: self.version,
            referenced_files,
            volumes,
        }
    }
}

/// An equal vector of strings.
fn clone_strings(v: &Vec<String>) -> (r: Vec<String>)
    ensures
        r@ == v@,
{
    let mut out: Vec<String> = Vec::new();
    let n = v.len();
    for i in 0..n
        invariant
            n == v@.len(),
            out@ =~= v@.take(i as int),
    {
        out.push(v[i].clone());
        assert(out@ =~= v@.take(i + 1));
    }
    assert(v@.take(n as int) =~= v@);
    out
}

/// An equal vector of volume records.
fn clone_volumes(v: &Vec<VolumeInfo>) -> (r: Vec<VolumeInfo>)
    ensures
        r@ == v@,
{
    let mut out: Vec<VolumeInfo> = Vec::new();
    let n = v.len();
    for i in 0..n
        invariant
            n == v@.len(),
            out@ =~= v@.take(i as int),
    {
        out.push(v[i].clone());
        assert(out@ =~= v@.take(i + 1));
    }
    assert(v@.take(n as int) =~= v@);
    out
}

} // verus!
