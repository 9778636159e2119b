//! The system-information collector: uptime, the current user, and the
//! host's OS identification.  The user and domain come from the
//! environment outside the library; the clock and OS strings come through
//! the trusted wrappers.

use vstd::prelude::*;
use vstd::string::StringExecFns;
use crate::types::{SystemInfo, LoggedOnUser, LogEntry, log_entry_wf};
use crate::strutil::{str_bytes, u64_to_string, dec_str};
use crate::wellformed::is_rfc3339;
use crate::wrappers::{
    now_rfc3339, unix_now_secs, boot_time_secs, system_name, system_os_version,
    system_kernel_version, system_host_name,
};

verus! {

/// The uptime two clock readings yield: defined exactly when the current
/// time lies after boot.
pub fn compute_uptime(current_secs: u64, boot_secs: u64) -> (r: Result<u64, String>)
    ensures
        current_secs > boot_secs <==> (r matches Ok(v) && v == current_secs - boot_secs),
        current_secs <= boot_secs <==> (r matches Err(e) && e@ == "Invalid boot time detected"@),
{
    if current_secs > boot_secs {
        Ok(current_secs - boot_secs)
    } else {
        Err("Invalid boot time detected".to_owned())
    }
}

/// Reads the clock and the boot instant and takes their difference.
pub fn collect_uptime() -> (r: Result<u64, String>)
    ensures
        r matches Err(e) ==> e@ == "Invalid boot time detected"@,
{
    let now = unix_now_secs();
    let now_u64: u64 = if now >= 0 {
        now as u64
    } else {
        0
    };
    let boot = boot_time_secs();
    compute_uptime(now_u64, boot)
}

/// The current user as a logged-on-user record: the domain falls back to
/// `WORKGROUP`, the logon time is the scan instant.
pub fn collect_logged_on_users(username: Option<String>, domain: Option<String>) -> (r: Vec<
    LoggedOnUser,
>)
    ensures
        username is Some ==> r@.len() == 1 && r@[0].username@ == username->0@
            && is_rfc3339(str_bytes(r@[0].logon_time@)) && (match domain {
            Some(d) => r@[0].domain@ == d@,
            None => r@[0].domain@ == "WORKGROUP"@,
        }),
        username is None ==> r@.len() == 0,
{
    let mut users: Vec<LoggedOnUser> = Vec::new();
    match username {
        Some(name) => {
            let dom = match domain {
                Some(d) => d,
                None => "WORKGROUP".to_owned(),
            };
            users.push(LoggedOnUser::new(name, dom, now_rfc3339()));
        },
        None => {},
    }
    users
}

/// Collects uptime and the logged-on user, with the collection log the
/// run produces.
pub fn collect_system_info(username: Option<String>, domain: Option<String>) -> (r: (
    SystemInfo,
    Vec<LogEntry>,
))
    ensures
        forall|i: int| 0 <= i < r.1@.len() ==> log_entry_wf(#[trigger] r.1@[i]),
        r.1@.len() == 4,
        r.1@[0].level@ == "INFO"@,
        r.1@[0].message@ == "Starting system information collection"@,
        (r.1@[1].level@ == "INFO"@ && r.1@[1].message@ == "System uptime: "@ + dec_str(
            r.0.uptime_secs as nat,
        ) + " seconds"@) || (r.1@[1].level@ == "WARN"@ && r.1@[1].message@
            == "Failed to collect system uptime: Invalid boot time detected"@ && r.0.uptime_secs
            == 0),
        r.1@[2].level@ == "INFO"@,
        r.1@[2].message@ == "Found "@ + dec_str(r.0.logged_on_users@.len() as nat)
            + " logged-on users"@,
        r.1@.last().level@ == "INFO"@,
        r.1@.last().message@ == "System information collection completed"@,
        username is Some ==> r.0.logged_on_users@.len() == 1,
        username is None ==> r.0.logged_on_users@.len() == 0,
{
    let mut logs: Vec<LogEntry> = Vec::new();
    logs.push(LogEntry::info("Starting system information collection"));
    let mut system_info = SystemInfo::default();
    match collect_uptime() {
        Ok(uptime) => {
            system_info.uptime_secs = uptime;
            let mut m = "System uptime: ".to_owned();
            let num = u64_to_string(uptime);
            m.append(num.as_str());
            m.append(" seconds");
            logs.push(LogEntry::info(m.as_str()));
        },
        Err(e) => {
            let mut m = "Failed to collect system uptime: ".to_owned();
            m.append(e.as_str());
            proof {
                reveal_strlit("Failed to collect system uptime: ");
                reveal_strlit("Invalid boot time detected");
                reveal_strlit("Failed to collect system uptime: Invalid boot time detected");
                assert(m@ =~= "Failed to collect system uptime: Invalid boot time detected"@);
            }
            logs.push(LogEntry::warn(m.as_str()));
        },
    }
    let users = collect_logged_on_users(username, domain);
    let user_count = users.len();
    system_info.logged_on_users = users;
    {
        let mut m = "Found ".to_owned();
        let num = u64_to_string(user_count as u64);
        m.append(num.as_str());
        m.append(" logged-on users");
        logs.push(LogEntry::info(m.as_str()));
    }
    logs.push(LogEntry::info("System information collection completed"));
    (system_info, logs)
}

/// Renders `name version (kernel)` from the three optional OS strings,
/// with fixed fallbacks.
pub fn format_os_version(name: Option<String>, version: Option<String>, kernel: Option<String>)
    -> (r: String)
    ensures
        r@ == (match name {
            Some(n) => n@,
            None => "Unknown OS"@,
        }) + " "@ + (match version {
            Some(v) => v@,
            None => "Unknown Version"@,
        }) + " ("@ + (match kernel {
            Some(k) => k@,
            None => "Unknown Kernel"@,
        }) + ")"@,
{
    let mut s = match name {
        Some(n) => n,
        None => "Unknown OS".to_owned(),
    };
    s.append(" ");
    match version {
        Some(v) => s.append(v.as_str()),
        None => s.append("Unknown Version"),
    }
    s.append(" (");
    match kernel {
        Some(k) => s.append(k.as_str()),
        None => s.append("Unknown Kernel"),
    }
    s.append(")");
    s
}

/// The OS identification line, from what the platform reports.
pub fn get_detailed_os_version() -> (r: String) {
    format_os_version(system_name(), system_os_version(), system_kernel_version())
}

/// The hostname the platform reports, or the `UNKNOWN` sentinel.
pub fn get_system_hostname() -> (r: String) {
    match system_host_name() {
        Some(h) => h,
        None => "UNKNOWN".to_owned(),
    }
}

} // verus!
