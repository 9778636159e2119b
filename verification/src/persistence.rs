//! The persistence collector: registry run keys, startup folders,
//! suspicious services and scheduled tasks, merged into one sorted list of
//! [`PersistenceMechanism`] records.  Registry, directory and scheduler
//! reads happen outside the library and arrive as plain values.

use vstd::prelude::*;
use vstd::string::StringExecFns;
use crate::types::{PersistenceMechanism, PersistenceType, LogEntry, logs_match, eq_str};
use crate::strutil::{
    str_bytes, contains_seq_ci, ends_with_seq, lower_bytes, str_contains_ci, str_ends_with_ci,
    dec_str, u64_to_string, str_chars, chars_to_string, trim_chars, trim_char_slice,
    starts_with_seq,
};
use crate::sortutil::{lex_le, sort_keyed};

verus! {

/// The registry hives the run-key scan visits.
#[derive(Debug, Clone, PartialEq, Eq, Structural)]
pub enum Hive {
    LocalMachine,
    CurrentUser,
    ClassesRoot,
    Users,
    CurrentConfig,
}

/// The short name of each hive.
pub open spec fn spec_hive_str(h: Hive) -> Seq<char> {
    match h {
        Hive::LocalMachine => "HKLM"@,
        Hive::CurrentUser => "HKCU"@,
        Hive::ClassesRoot => "HKCR"@,
        Hive::Users => "HKU"@,
        Hive::CurrentConfig => "HKCC"@,
    }
}

/// Exec counterpart of [`spec_hive_str`].
pub fn hive_to_string(hive: &Hive) -> (r: &'static str)
    ensures
        r@ == spec_hive_str(*hive),
{
    match hive {
        Hive::LocalMachine => "HKLM",
        Hive::CurrentUser => "HKCU",
        Hive::ClassesRoot => "HKCR",
        Hive::Users => "HKU",
        Hive::CurrentConfig => "HKCC",
    }
}

/// The string values found under one run key.
#[derive(Debug, Clone)]
pub struct RegRunKey {
    pub hive: Hive,
    /// The key path below the hive.
    pub path: String,
    /// Value name and string data of each value under the key.
    pub values: Vec<(String, String)>,
}

/// The direct children of one startup folder.
#[derive(Debug, Clone)]
pub struct StartupFolder {
    pub folder_path: String,
    pub file_names: Vec<String>,
}

/// A command matches the suspiciousness heuristic: a user-writable or
/// temporary location, a scripting extension, or a living-off-the-land
/// binary.
pub open spec fn spec_suspicious_command(cmd: Seq<u8>) -> bool {
    ||| contains_seq_ci(cmd, str_bytes("temp"@))
    ||| contains_seq_ci(cmd, str_bytes("tmp"@))
    ||| contains_seq_ci(cmd, str_bytes("appdata\\local\\temp"@))
    ||| contains_seq_ci(cmd, str_bytes("downloads"@))
    ||| contains_seq_ci(cmd, str_bytes("desktop"@))
    ||| contains_seq_ci(cmd, str_bytes("documents"@))
    ||| contains_seq_ci(cmd, str_bytes("public"@))
    ||| contains_seq_ci(cmd, str_bytes("users\\public"@))
    ||| contains_seq_ci(cmd, str_bytes("programdata"@))
    ||| contains_seq_ci(cmd, str_bytes(".bat"@))
    ||| contains_seq_ci(cmd, str_bytes(".cmd"@))
    ||| contains_seq_ci(cmd, str_bytes(".ps1"@))
    ||| contains_seq_ci(cmd, str_bytes(".vbs"@))
    ||| contains_seq_ci(cmd, str_bytes(".js"@))
    ||| contains_seq_ci(cmd, str_bytes(".jar"@))
    ||| contains_seq_ci(cmd, str_bytes(".scr"@))
    ||| contains_seq_ci(cmd, str_bytes(".pif"@))
    ||| contains_seq_ci(cmd, str_bytes("powershell"@))
    ||| contains_seq_ci(cmd, str_bytes("cmd.exe"@))
    ||| contains_seq_ci(cmd, str_bytes("wscript"@))
    ||| contains_seq_ci(cmd, str_bytes("cscript"@))
    ||| contains_seq_ci(cmd, str_bytes("regsvr32"@))
    ||| contains_seq_ci(cmd, str_bytes("rundll32"@))
    ||| contains_seq_ci(cmd, str_bytes("mshta"@))
    ||| contains_seq_ci(cmd, str_bytes("bitsadmin"@))
    ||| contains_seq_ci(cmd, str_bytes("certutil"@))
}

/// Whether a mechanism's command matches the suspiciousness heuristic.
/// The flag only annotates records; it never gates collection.
pub fn is_suspicious_command(command: &str) -> (r: bool)
    ensures
        r == spec_suspicious_command(str_bytes(command@)),
{
    str_contains_ci(command, "temp") || str_contains_ci(command, "tmp") || str_contains_ci(
        command,
        "appdata\\local\\temp",
    ) || str_contains_ci(command, "downloads") || str_contains_ci(command, "desktop")
        || str_contains_ci(command, "documents") || str_contains_ci(command, "public")
        || str_contains_ci(command, "users\\public") || str_contains_ci(command, "programdata")
        || str_contains_ci(command, ".bat") || str_contains_ci(command, ".cmd") || str_contains_ci(
        command,
        ".ps1",
    ) || str_contains_ci(command, ".vbs") || str_contains_ci(command, ".js") || str_contains_ci(
        command,
        ".jar",
    ) || str_contains_ci(command, ".scr") || str_contains_ci(command, ".pif") || str_contains_ci(
        command,
        "powershell",
    ) || str_contains_ci(command, "cmd.exe") || str_contains_ci(command, "wscript")
        || str_contains_ci(command, "cscript") || str_contains_ci(command, "regsvr32")
        || str_contains_ci(command, "rundll32") || str_contains_ci(command, "mshta")
        || str_contains_ci(command, "bitsadmin") || str_contains_ci(command, "certutil")
}

/// The mechanism's command matches the suspiciousness heuristic.
pub fn is_mechanism_suspicious(mechanism: &PersistenceMechanism) -> (r: bool)
    ensures
        r == spec_suspicious_command(str_bytes(mechanism.command@)),
{
    is_suspicious_command(mechanism.command.as_str())
}

/// A scheduled-task command matches the suspicious-command patterns.
pub open spec fn spec_suspicious_task_command(cmd: Seq<u8>) -> bool {
    ||| contains_seq_ci(cmd, str_bytes("powershell"@))
    ||| contains_seq_ci(cmd, str_bytes("cmd.exe"@))
    ||| contains_seq_ci(cmd, str_bytes("wscript"@))
    ||| contains_seq_ci(cmd, str_bytes("cscript"@))
    ||| contains_seq_ci(cmd, str_bytes("regsvr32"@))
    ||| contains_seq_ci(cmd, str_bytes("rundll32"@))
    ||| contains_seq_ci(cmd, str_bytes("mshta"@))
    ||| contains_seq_ci(cmd, str_bytes("bitsadmin"@))
    ||| contains_seq_ci(cmd, str_bytes("certutil"@))
    ||| contains_seq_ci(cmd, str_bytes("temp\\"@))
    ||| contains_seq_ci(cmd, str_bytes("tmp\\"@))
    ||| contains_seq_ci(cmd, str_bytes("appdata\\"@))
    ||| contains_seq_ci(cmd, str_bytes("downloads\\"@))
    ||| contains_seq_ci(cmd, str_bytes("public\\"@))
    ||| contains_seq_ci(cmd, str_bytes(".bat"@))
    ||| contains_seq_ci(cmd, str_bytes(".cmd"@))
    ||| contains_seq_ci(cmd, str_bytes(".ps1"@))
    ||| contains_seq_ci(cmd, str_bytes(".vbs"@))
    ||| contains_seq_ci(cmd, str_bytes(".js"@))
}

/// Exec counterpart of [`spec_suspicious_task_command`].
pub fn is_suspicious_task_command(command: &str) -> (r: bool)
    ensures
        r == spec_suspicious_task_command(str_bytes(command@)),
{
    str_contains_ci(command, "powershell") || str_contains_ci(command, "cmd.exe")
        || str_contains_ci(command, "wscript") || str_contains_ci(command, "cscript")
        || str_contains_ci(command, "regsvr32") || str_contains_ci(command, "rundll32")
        || str_contains_ci(command, "mshta") || str_contains_ci(command, "bitsadmin")
        || str_contains_ci(command, "certutil") || str_contains_ci(command, "temp\\")
        || str_contains_ci(command, "tmp\\") || str_contains_ci(command, "appdata\\")
        || str_contains_ci(command, "downloads\\") || str_contains_ci(command, "public\\")
        || str_contains_ci(command, ".bat") || str_contains_ci(command, ".cmd")
        || str_contains_ci(command, ".ps1") || str_contains_ci(command, ".vbs")
        || str_contains_ci(command, ".js")
}

/// The service allow-list: the name contains one of the well-known
/// Windows service names.
pub open spec fn spec_known_safe_service(name: Seq<u8>) -> bool {
    ||| contains_seq_ci(name, str_bytes("wuauserv"@))
    ||| contains_seq_ci(name, str_bytes("bits"@))
    ||| contains_seq_ci(name, str_bytes("eventlog"@))
    ||| contains_seq_ci(name, str_bytes("winmgmt"@))
    ||| contains_seq_ci(name, str_bytes("schedule"@))
    ||| contains_seq_ci(name, str_bytes("themes"@))
    ||| contains_seq_ci(name, str_bytes("audiosrv"@))
    ||| contains_seq_ci(name, str_bytes("browser"@))
    ||| contains_seq_ci(name, str_bytes("dhcp"@))
    ||| contains_seq_ci(name, str_bytes("dnscache"@))
    ||| contains_seq_ci(name, str_bytes("lanmanserver"@))
    ||| contains_seq_ci(name, str_bytes("lanmanworkstation"@))
    ||| contains_seq_ci(name, str_bytes("netlogon"@))
    ||| contains_seq_ci(name, str_bytes("nla"@))
    ||| contains_seq_ci(name, str_bytes("policyagent"@))
    ||| contains_seq_ci(name, str_bytes("rpcss"@))
    ||| contains_seq_ci(name, str_bytes("samss"@))
    ||| contains_seq_ci(name, str_bytes("seclogon"@))
    ||| contains_seq_ci(name, str_bytes("sens"@))
    ||| contains_seq_ci(name, str_bytes("sharedaccess"@))
    ||| contains_seq_ci(name, str_bytes("shellhwdetection"@))
    ||| contains_seq_ci(name, str_bytes("spooler"@))
    ||| contains_seq_ci(name, str_bytes("srservice"@))
    ||| contains_seq_ci(name, str_bytes("ssdpsrv"@))
    ||| contains_seq_ci(name, str_bytes("stisvc"@))
    ||| contains_seq_ci(name, str_bytes("tapisrv"@))
    ||| contains_seq_ci(name, str_bytes("termservice"@))
    ||| contains_seq_ci(name, str_bytes("w32time"@))
    ||| contains_seq_ci(name, str_bytes("winhttp"@))
    ||| contains_seq_ci(name, str_bytes("wmi"@))
    ||| contains_seq_ci(name, str_bytes("wsearch"@))
}

fn known_safe_service(name: &str) -> (r: bool)
    ensures
        r == spec_known_safe_service(str_bytes(name@)),
{
    str_contains_ci(name, "wuauserv") || str_contains_ci(name, "bits") || str_contains_ci(
        name,
        "eventlog",
    ) || str_contains_ci(name, "winmgmt") || str_contains_ci(name, "schedule") || str_contains_ci(
        name,
        "themes",
    ) || str_contains_ci(name, "audiosrv") || str_contains_ci(name, "browser") || str_contains_ci(
        name,
        "dhcp",
    ) || str_contains_ci(name, "dnscache") || str_contains_ci(name, "lanmanserver")
        || str_contains_ci(name, "lanmanworkstation") || str_contains_ci(name, "netlogon")
        || str_contains_ci(name, "nla") || str_contains_ci(name, "policyagent") || str_contains_ci(
        name,
        "rpcss",
    ) || str_contains_ci(name, "samss") || str_contains_ci(name, "seclogon") || str_contains_ci(
        name,
        "sens",
    ) || str_contains_ci(name, "sharedaccess") || str_contains_ci(name, "shellhwdetection")
        || str_contains_ci(name, "spooler") || str_contains_ci(name, "srservice")
        || str_contains_ci(name, "ssdpsrv") || str_contains_ci(name, "stisvc") || str_contains_ci(
        name,
        "tapisrv",
    ) || str_contains_ci(name, "termservice") || str_contains_ci(name, "w32time")
        || str_contains_ci(name, "winhttp") || str_contains_ci(name, "wmi") || str_contains_ci(
        name,
        "wsearch",
    )
}

/// A service counts as potentially suspicious: not on the allow-list, and
/// with an image path in a user-writable place, with a scripting
/// extension, or outside the standard system directories.
pub open spec fn spec_suspicious_service(name: Seq<u8>, path: Seq<u8>) -> bool {
    &&& !spec_known_safe_service(name)
    &&& ({
        ||| contains_seq_ci(path, str_bytes("temp"@))
        ||| contains_seq_ci(path, str_bytes("tmp"@))
        ||| contains_seq_ci(path, str_bytes("appdata"@))
        ||| contains_seq_ci(path, str_bytes("downloads"@))
        ||| contains_seq_ci(path, str_bytes("desktop"@))
        ||| contains_seq_ci(path, str_bytes("documents"@))
        ||| contains_seq_ci(path, str_bytes("public"@))
        ||| contains_seq_ci(path, str_bytes("users\\public"@))
        ||| contains_seq_ci(path, str_bytes("programdata"@))
        ||| ends_with_seq(lower_bytes(path), lower_bytes(str_bytes(".bat"@)))
        ||| ends_with_seq(lower_bytes(path), lower_bytes(str_bytes(".cmd"@)))
        ||| ends_with_seq(lower_bytes(path), lower_bytes(str_bytes(".ps1"@)))
        ||| ends_with_seq(lower_bytes(path), lower_bytes(str_bytes(".vbs"@)))
        ||| ends_with_seq(lower_bytes(path), lower_bytes(str_bytes(".js"@)))
        ||| ends_with_seq(lower_bytes(path), lower_bytes(str_bytes(".jar"@)))
        ||| ends_with_seq(lower_bytes(path), lower_bytes(str_bytes(".scr"@)))
        ||| (!contains_seq_ci(path, str_bytes("system32"@)) && !contains_seq_ci(
            path,
            str_bytes("syswow64"@),
        ) && !contains_seq_ci(path, str_bytes("program files"@)) && !contains_seq_ci(
            path,
            str_bytes("windows\\"@),
        ))
    })
}

/// Exec counterpart of [`spec_suspicious_service`].
pub fn is_potentially_suspicious_service(name: &str, image_path: &str) -> (r: bool)
    ensures
        r == spec_suspicious_service(str_bytes(name@), str_bytes(image_path@)),
{
    if known_safe_service(name) {
        return false;
    }
    if str_contains_ci(image_path, "temp") || str_contains_ci(image_path, "tmp")
        || str_contains_ci(image_path, "appdata") || str_contains_ci(image_path, "downloads")
        || str_contains_ci(image_path, "desktop") || str_contains_ci(image_path, "documents")
        || str_contains_ci(image_path, "public") || str_contains_ci(image_path, "users\\public")
        || str_contains_ci(image_path, "programdata") {
        return true;
    }
    if str_ends_with_ci(image_path, ".bat") || str_ends_with_ci(image_path, ".cmd")
        || str_ends_with_ci(image_path, ".ps1") || str_ends_with_ci(image_path, ".vbs")
        || str_ends_with_ci(image_path, ".js") || str_ends_with_ci(image_path, ".jar")
        || str_ends_with_ci(image_path, ".scr") {
        return true;
    }
    !str_contains_ci(image_path, "system32") && !str_contains_ci(image_path, "syswow64")
        && !str_contains_ci(image_path, "program files") && !str_contains_ci(
        image_path,
        "windows\\",
    )
}

/// One record of a run-key value: category per hive, the value name and
/// data, the hive-qualified key as the source, and the heuristic flag.
pub open spec fn reg_mech_matches(
    hive: Hive,
    path: Seq<char>,
    name: Seq<char>,
    data: Seq<char>,
    m: PersistenceMechanism,
) -> bool {
    &&& m.mechanism_type@ == (if hive == Hive::CurrentUser {
        "Registry Run Key (User)"@
    } else {
        "Registry Run Key"@
    })
    &&& m.name@ == name
    &&& m.command@ == data
    &&& m.source@ == spec_hive_str(hive) + "\\"@ + path
    &&& m.is_suspicious == spec_suspicious_command(str_bytes(data))
}

/// The record arose from a value of one of the given run keys.
pub open spec fn reg_mech_from(keys: Seq<RegRunKey>, m: PersistenceMechanism) -> bool {
    exists|j: int, k: int|
        0 <= j < keys.len() && 0 <= k < keys[j].values@.len() && reg_mech_matches(
            keys[j].hive,
            keys[j].path@,
            (#[trigger] keys[j].values@[k]).0@,
            keys[j].values@[k].1@,
            m,
        )
}

/// How many values the first `j` keys hold together.
pub open spec fn reg_prefix_len(keys: Seq<RegRunKey>, j: int) -> int
    decreases j,
{
    if j <= 0 {
        0
    } else {
        reg_prefix_len(keys, j - 1) + keys[j - 1].values@.len()
    }
}

/// Builds one record per string value of the given run keys, in key order
/// and, within a key, value order.
pub fn collect_registry_run_keys(keys: &Vec<RegRunKey>) -> (r: Vec<PersistenceMechanism>)
    ensures
        r@.len() == reg_prefix_len(keys@, keys@.len() as int),
        forall|j: int, k: int|
            0 <= j < keys@.len() && 0 <= k < keys@[j].values@.len() ==> reg_mech_matches(
                keys@[j].hive,
                keys@[j].path@,
                (#[trigger] keys@[j].values@[k]).0@,
                keys@[j].values@[k].1@,
                r@[reg_prefix_len(keys@, j) + k],
            ),
        forall|i: int| 0 <= i < r@.len() ==> reg_mech_from(keys@, #[trigger] r@[i]),
{
    let mut out: Vec<PersistenceMechanism> = Vec::new();
    let nk = keys.len();
    for j in 0..nk
        invariant
            nk == keys@.len(),
            out@.len() == reg_prefix_len(keys@, j as int),
            forall|jj: int, kk: int|
                0 <= jj < j && 0 <= kk < keys@[jj].values@.len() ==> reg_mech_matches(
                    keys@[jj].hive,
                    keys@[jj].path@,
                    (#[trigger] keys@[jj].values@[kk]).0@,
                    keys@[jj].values@[kk].1@,
                    out@[reg_prefix_len(keys@, jj) + kk],
                ),
            forall|i: int| 0 <= i < out@.len() ==> reg_mech_from(keys@, #[trigger] out@[i]),
    {
        let ghost pre = out@;
        push_key_records(&mut out, keys, j);
        proof {
            assert(reg_prefix_len(keys@, j + 1) == reg_prefix_len(keys@, j as int)
                + keys@[j as int].values@.len());
            assert forall|jj: int, kk: int|
                0 <= jj < j + 1 && 0 <= kk < keys@[jj].values@.len() implies reg_mech_matches(
                keys@[jj].hive,
                keys@[jj].path@,
                (#[trigger] keys@[jj].values@[kk]).0@,
                keys@[jj].values@[kk].1@,
                out@[reg_prefix_len(keys@, jj) + kk],
            ) by {
                lemma_reg_prefix_len_bounds(keys@, jj);
                if jj < j {
                    lemma_reg_prefix_len_mono(keys@, jj + 1, j as int);
                    assert(reg_prefix_len(keys@, jj + 1) == reg_prefix_len(keys@, jj)
                        + keys@[jj].values@.len());
                    assert(out@[reg_prefix_len(keys@, jj) + kk] == pre[reg_prefix_len(keys@, jj)
                        + kk]);
                } else {
                    assert(jj == j);
                }
            }
        }
    }
    out
}

/// Appends the records of key `j`'s values, in order.
#[verifier::rlimit(60)]
fn push_key_records(out: &mut Vec<PersistenceMechanism>, keys: &Vec<RegRunKey>, j: usize)
    requires
        j < keys@.len(),
    ensures
        final(out)@.len() == old(out)@.len() + keys@[j as int].values@.len(),
        forall|i: int| 0 <= i < old(out)@.len() ==> #[trigger] final(out)@[i] == old(out)@[i],
        forall|kk: int|
            0 <= kk < keys@[j as int].values@.len() ==> reg_mech_matches(
                keys@[j as int].hive,
                keys@[j as int].path@,
                (#[trigger] keys@[j as int].values@[kk]).0@,
                keys@[j as int].values@[kk].1@,
                final(out)@[old(out)@.len() + kk],
            ),
        forall|i: int|
            old(out)@.len() <= i < final(out)@.len() ==> reg_mech_from(
                keys@,
                #[trigger] final(out)@[i],
            ),
{
    let nv = keys[j].values.len();
    for k in 0..nv
        invariant
            j < keys@.len(),
            nv == keys@[j as int].values@.len(),
            out@.len() == old(out)@.len() + k,
            forall|i: int| 0 <= i < old(out)@.len() ==> #[trigger] out@[i] == old(out)@[i],
            forall|kk: int|
                0 <= kk < k ==> reg_mech_matches(
                    keys@[j as int].hive,
                    keys@[j as int].path@,
                    (#[trigger] keys@[j as int].values@[kk]).0@,
                    keys@[j as int].values@[kk].1@,
                    out@[old(out)@.len() + kk],
                ),
            forall|i: int|
                old(out)@.len() <= i < out@.len() ==> reg_mech_from(keys@, #[trigger] out@[i]),
    {
        let name = keys[j].values[k].0.clone();
        let data = keys[j].values[k].1.clone();
        let mut source = hive_to_string(&keys[j].hive).to_owned();
        source.append("\\");
        source.append(keys[j].path.as_str());
        let mech_type = if matches!(keys[j].hive, Hive::CurrentUser) {
            PersistenceType::RegistryRunKeyUser.as_str()
        } else {
            PersistenceType::RegistryRunKey.as_str()
        };
        let sus = is_suspicious_command(data.as_str());
        let m = PersistenceMechanism::new_with_location_value(
            mech_type.to_owned(),
            name,
            data,
            source,
            String::new(),
            String::new(),
            sus,
        );
        proof {
            assert(reg_mech_matches(
                keys@[j as int].hive,
                keys@[j as int].path@,
                (keys@[j as int].values@[k as int]).0@,
                keys@[j as int].values@[k as int].1@,
                m,
            ));
            assert(reg_mech_from(keys@, m));
        }
        out.push(m);
    }
}

/// Prefix value-counts only grow with more keys.
proof fn lemma_reg_prefix_len_mono(keys: Seq<RegRunKey>, a: int, b: int)
    requires
        a <= b,
    ensures
        reg_prefix_len(keys, a) <= reg_prefix_len(keys, b),
    decreases b - a,
{
    if a < b {
        lemma_reg_prefix_len_mono(keys, a, b - 1);
    }
}

/// Prefix value-counts are monotone and non-negative.
/// Prefix value-counts are monotone and non-negative.
proof fn lemma_reg_prefix_len_bounds(keys: Seq<RegRunKey>, j: int)
    ensures
        reg_prefix_len(keys, j) >= 0,
    decreases j,
{
    if j > 0 {
        lemma_reg_prefix_len_bounds(keys, j - 1);
    }
}

/// One record of a startup-folder child: the file name, the absolute path
/// as the command, the folder as the source.
pub open spec fn startup_mech_matches(
    folder: Seq<char>,
    file: Seq<char>,
    m: PersistenceMechanism,
) -> bool {
    &&& m.mechanism_type@ == "Startup Folder"@
    &&& m.name@ == file
    &&& m.command@ == folder + "\\"@ + file
    &&& m.source@ == folder
    &&& m.is_suspicious == spec_suspicious_command(str_bytes(folder + "\\"@ + file))
}

/// The record arose from a child of one of the given startup folders.
pub open spec fn startup_mech_from(folders: Seq<StartupFolder>, m: PersistenceMechanism) -> bool {
    exists|j: int, k: int|
        0 <= j < folders.len() && 0 <= k < folders[j].file_names@.len() && startup_mech_matches(
            folders[j].folder_path@,
            (#[trigger] folders[j].file_names@[k])@,
            m,
        )
}

/// How many children the first `j` folders hold together.
pub open spec fn startup_prefix_len(folders: Seq<StartupFolder>, j: int) -> int
    decreases j,
{
    if j <= 0 {
        0
    } else {
        startup_prefix_len(folders, j - 1) + folders[j - 1].file_names@.len()
    }
}

/// Builds one record per direct child of the given startup folders, in
/// folder order and, within a folder, child order.
pub fn collect_startup_folder_entries(folders: &Vec<StartupFolder>) -> (r: Vec<
    PersistenceMechanism,
>)
    ensures
        r@.len() == startup_prefix_len(folders@, folders@.len() as int),
        forall|j: int, k: int|
            0 <= j < folders@.len() && 0 <= k < folders@[j].file_names@.len()
                ==> startup_mech_matches(
                folders@[j].folder_path@,
                (#[trigger] folders@[j].file_names@[k])@,
                r@[startup_prefix_len(folders@, j) + k],
            ),
        forall|i: int| 0 <= i < r@.len() ==> startup_mech_from(folders@, #[trigger] r@[i]),
{
    let mut out: Vec<PersistenceMechanism> = Vec::new();
    let nf = folders.len();
    for j in 0..nf
        invariant
            nf == folders@.len(),
            out@.len() == startup_prefix_len(folders@, j as int),
            forall|jj: int, kk: int|
                0 <= jj < j && 0 <= kk < folders@[jj].file_names@.len() ==> startup_mech_matches(
                    folders@[jj].folder_path@,
                    (#[trigger] folders@[jj].file_names@[kk])@,
                    out@[startup_prefix_len(folders@, jj) + kk],
                ),
            forall|i: int| 0 <= i < out@.len() ==> startup_mech_from(folders@, #[trigger] out@[i]),
    {
        let ghost pre = out@;
        push_folder_records(&mut out, folders, j);
        proof {
            assert(startup_prefix_len(folders@, j + 1) == startup_prefix_len(folders@, j as int)
                + folders@[j as int].file_names@.len());
            assert forall|jj: int, kk: int|
                0 <= jj < j + 1 && 0 <= kk < folders@[jj].file_names@.len()
                implies startup_mech_matches(
                folders@[jj].folder_path@,
                (#[trigger] folders@[jj].file_names@[kk])@,
                out@[startup_prefix_len(folders@, jj) + kk],
            ) by {
                lemma_startup_prefix_len_bounds(folders@, jj);
                if jj < j {
                    lemma_startup_prefix_len_mono(folders@, jj + 1, j as int);
                    assert(startup_prefix_len(folders@, jj + 1) == startup_prefix_len(folders@, jj)
                        + folders@[jj].file_names@.len());
                    assert(out@[startup_prefix_len(folders@, jj) + kk] == pre[startup_prefix_len(
                        folders@,
                        jj,
                    ) + kk]);
                } else {
                    assert(jj == j);
                }
            }
        }
    }
    out
}

/// Appends the records of folder `j`'s children, in order.
#[verifier::rlimit(60)]
fn push_folder_records(out: &mut Vec<PersistenceMechanism>, folders: &Vec<StartupFolder>, j: usize)
    requires
        j < folders@.len(),
    ensures
        final(out)@.len() == old(out)@.len() + folders@[j as int].file_names@.len(),
        forall|i: int| 0 <= i < old(out)@.len() ==> #[trigger] final(out)@[i] == old(out)@[i],
        forall|kk: int|
            0 <= kk < folders@[j as int].file_names@.len() ==> startup_mech_matches(
                folders@[j as int].folder_path@,
                (#[trigger] folders@[j as int].file_names@[kk])@,
                final(out)@[old(out)@.len() + kk],
            ),
        forall|i: int|
            old(out)@.len() <= i < final(out)@.len() ==> startup_mech_from(
                folders@,
                #[trigger] final(out)@[i],
            ),
{
    let nv = folders[j].file_names.len();
    for k in 0..nv
        invariant
            j < folders@.len(),
            nv == folders@[j as int].file_names@.len(),
            out@.len() == old(out)@.len() + k,
            forall|i: int| 0 <= i < old(out)@.len() ==> #[trigger] out@[i] == old(out)@[i],
            forall|kk: int|
                0 <= kk < k ==> startup_mech_matches(
                    folders@[j as int].folder_path@,
                    (#[trigger] folders@[j as int].file_names@[kk])@,
                    out@[old(out)@.len() + kk],
                ),
            forall|i: int|
                old(out)@.len() <= i < out@.len() ==> startup_mech_from(
                    folders@,
                    #[trigger] out@[i],
                ),
    {
        let name = folders[j].file_names[k].clone();
        let mut command = folders[j].folder_path.clone();
        command.append("\\");
        command.append(name.as_str());
        let sus = is_suspicious_command(command.as_str());
        let m = PersistenceMechanism::new_with_location_value(
            PersistenceType::StartupFolder.as_str().to_owned(),
            name,
            command,
            folders[j].folder_path.clone(),
            String::new(),
            String::new(),
            sus,
        );
        proof {
            assert(startup_mech_matches(
                folders@[j as int].folder_path@,
                (folders@[j as int].file_names@[k as int])@,
                m,
            ));
            assert(startup_mech_from(folders@, m));
        }
        out.push(m);
    }
}

/// Prefix child-counts only grow with more folders.
proof fn lemma_startup_prefix_len_mono(folders: Seq<StartupFolder>, a: int, b: int)
    requires
        a <= b,
    ensures
        startup_prefix_len(folders, a) <= startup_prefix_len(folders, b),
    decreases b - a,
{
    if a < b {
        lemma_startup_prefix_len_mono(folders, a, b - 1);
    }
}

/// Prefix child-counts are non-negative.
proof fn lemma_startup_prefix_len_bounds(folders: Seq<StartupFolder>, j: int)
    ensures
        startup_prefix_len(folders, j) >= 0,
    decreases j,
{
    if j > 0 {
        lemma_startup_prefix_len_bounds(folders, j - 1);
    }
}

/// One record of a suspicious service: the service name, its image path as
/// the command, and the hive-qualified key as the source.
pub open spec fn service_mech_matches(name: Seq<char>, path: Seq<char>, m: PersistenceMechanism) -> bool {
    &&& m.mechanism_type@ == "Windows Service"@
    &&& m.name@ == name
    &&& m.command@ == path
    &&& m.source@ == "HKLM\\SYSTEM\\CurrentControlSet\\Services\\"@ + name
    &&& m.is_suspicious == spec_suspicious_command(str_bytes(path))
    &&& spec_suspicious_service(str_bytes(name), str_bytes(path))
}

/// The record arose from one of the given services.
pub open spec fn service_mech_from(services: Seq<(String, String)>, m: PersistenceMechanism) -> bool {
    exists|j: int|
        0 <= j < services.len() && service_mech_matches(
            (#[trigger] services[j]).0@,
            services[j].1@,
            m,
        )
}

/// How many of the services the heuristic flags.
pub open spec fn kept_service_count(services: Seq<(String, String)>) -> int
    decreases services.len(),
{
    if services.len() == 0 {
        0
    } else {
        kept_service_count(services.drop_last()) + (if spec_suspicious_service(
            str_bytes(services.last().0@),
            str_bytes(services.last().1@),
        ) {
            1int
        } else {
            0int
        })
    }
}

/// Service `j` has a record in `r`.
pub open spec fn service_recorded(
    services: Seq<(String, String)>,
    j: int,
    r: Seq<PersistenceMechanism>,
) -> bool {
    exists|t: int|
        0 <= t < r.len() && service_mech_matches(services[j].0@, services[j].1@, #[trigger] r[t])
}

/// Keeps exactly the services the heuristic flags, as records, in input
/// order.
#[verifier::rlimit(60)]
pub fn collect_service_persistence(services: &Vec<(String, String)>) -> (r: Vec<
    PersistenceMechanism,
>)
    ensures
        r@.len() == kept_service_count(services@),
        forall|i: int| 0 <= i < r@.len() ==> service_mech_from(services@, #[trigger] r@[i]),
        forall|j: int|
            0 <= j < services@.len() && spec_suspicious_service(
                str_bytes((#[trigger] services@[j]).0@),
                str_bytes(services@[j].1@),
            ) ==> service_recorded(services@, j, r@),
{
    let mut out: Vec<PersistenceMechanism> = Vec::new();
    let n = services.len();
    for j in 0..n
        invariant
            n == services@.len(),
            out@.len() == kept_service_count(services@.take(j as int)),
            forall|i: int| 0 <= i < out@.len() ==> service_mech_from(services@, #[trigger] out@[i]),
            forall|jj: int|
                0 <= jj < j && spec_suspicious_service(
                    str_bytes((#[trigger] services@[jj]).0@),
                    str_bytes(services@[jj].1@),
                ) ==> service_recorded(services@, jj, out@),
    {
        proof {
            assert(services@.take(j + 1).drop_last() =~= services@.take(j as int));
            assert(services@.take(j + 1).last() == services@[j as int]);
        }
        let name = services[j].0.clone();
        let path = services[j].1.clone();
        let ghost pre = out@;
        if is_potentially_suspicious_service(name.as_str(), path.as_str()) {
            let mut source = "HKLM\\SYSTEM\\CurrentControlSet\\Services\\".to_owned();
            source.append(name.as_str());
            let sus = is_suspicious_command(path.as_str());
            let m = PersistenceMechanism::new_with_location_value(
                PersistenceType::Service.as_str().to_owned(),
                name,
                path,
                source,
                String::new(),
                String::new(),
                sus,
            );
            proof {
                assert(service_mech_matches((services@[j as int]).0@, services@[j as int].1@, m));
                assert(service_mech_from(services@, m));
            }
            out.push(m);
            proof {
                assert(out@.last() == m);
                assert forall|jj: int|
                    0 <= jj < j + 1 && spec_suspicious_service(
                        str_bytes((#[trigger] services@[jj]).0@),
                        str_bytes(services@[jj].1@),
                    ) implies service_recorded(services@, jj, out@) by {
                    if jj < j {
                        let t0 = choose|t: int|
                            0 <= t < pre.len() && service_mech_matches(
                                services@[jj].0@,
                                services@[jj].1@,
                                #[trigger] pre[t],
                            );
                        assert(out@[t0] == pre[t0]);
                        assert(service_mech_matches(services@[jj].0@, services@[jj].1@, out@[t0]));
                    } else {
                        assert(service_mech_matches(
                            services@[jj].0@,
                            services@[jj].1@,
                            out@[out@.len() - 1],
                        ));
                    }
                }
            }
        } else {
            proof {
                assert forall|jj: int|
                    0 <= jj < j + 1 && spec_suspicious_service(
                        str_bytes((#[trigger] services@[jj]).0@),
                        str_bytes(services@[jj].1@),
                    ) implies service_recorded(services@, jj, out@) by {
                    assert(jj < j);
                }
            }
        }
    }
    proof {
        assert(services@.take(n as int) =~= services@);
    }
    out
}

/// Splitting a comma-separated line with double-quoted fields: quotes
/// toggle, commas outside quotes separate, and each field is trimmed.
pub open spec fn csv_split(s: Seq<char>, i: int, cur: Seq<char>, inq: bool) -> Seq<Seq<char>>
    decreases s.len() - i,
{
    if i < 0 || i >= s.len() {
        seq![trim_chars(cur)]
    } else if s[i] == '"' {
        csv_split(s, i + 1, cur, !inq)
    } else if s[i] == ',' && !inq {
        seq![trim_chars(cur)] + csv_split(s, i + 1, Seq::empty(), inq)
    } else {
        csv_split(s, i + 1, cur.push(s[i]), inq)
    }
}

/// Parses one CSV line with double-quoted fields that may hold embedded
/// commas, into owned trimmed fields.
pub fn parse_csv_line(line: &str) -> (r: Vec<String>)
    ensures
        r.deep_view() == csv_split(line@, 0, Seq::empty(), false),
{
    let cs = str_chars(line);
    let n = cs.len();
    let mut fields: Vec<String> = Vec::new();
    let mut cur: Vec<char> = Vec::new();
    let mut inq: bool = false;
    let mut i: usize = 0;
    while i < n
        invariant
            n == cs@.len(),
            cs@ == line@,
            i <= n,
            fields.deep_view() + csv_split(line@, i as int, cur@, inq) == csv_split(
                line@,
                0,
                Seq::empty(),
                false,
            ),
        decreases n - i,
    {
        let c = cs[i];
        if c == '"' {
            inq = !inq;
        } else if c == ',' && !inq {
            let ghost pre = fields.deep_view();
            let ghost cur_pre = cur@;
            let t = trim_char_slice(cur.as_slice());
            fields.push(chars_to_string(t.as_slice()));
            cur = Vec::new();
            proof {
                assert(fields.deep_view() =~= pre.push(trim_chars(cur_pre)));
            }
        } else {
            cur.push(c);
        }
        i = i + 1;
        proof {
            assert(fields.deep_view() + csv_split(line@, i as int, cur@, inq) =~= csv_split(
                line@,
                0,
                Seq::empty(),
                false,
            ));
        }
    }
    let t = trim_char_slice(cur.as_slice());
    let ghost pre = fields.deep_view();
    fields.push(chars_to_string(t.as_slice()));
    proof {
        assert(fields.deep_view() =~= pre.push(trim_chars(cur@)));
        assert(fields.deep_view() =~= csv_split(line@, 0, Seq::empty(), false));
    }
    fields
}

/// The two texts are equal up to ASCII case.
pub open spec fn ci_eq(a: Seq<char>, b: Seq<char>) -> bool {
    lower_bytes(str_bytes(a)) == lower_bytes(str_bytes(b))
}

/// The first column whose name equals `name` up to ASCII case, if any.
pub open spec fn spec_col_idx(columns: Seq<Seq<char>>, name: Seq<char>) -> Option<int> {
    if exists|i: int| 0 <= i < columns.len() && ci_eq(#[trigger] columns[i], name) {
        let i = choose|i: int|
            0 <= i < columns.len() && ci_eq(#[trigger] columns[i], name) && forall|k: int|
                0 <= k < i ==> !ci_eq(#[trigger] columns[k], name);
        Some(i)
    } else {
        None
    }
}

/// Index of the first column whose name equals `column_name` up to ASCII
/// case.
pub fn find_column_index(columns: &Vec<String>, column_name: &str) -> (r: Option<usize>)
    ensures
        ({
            let s = spec_col_idx(columns.deep_view(), column_name@);
            match r {
                Some(i) => s == Some(i as int),
                None => s is None,
            }
        }),
{
    let n = columns.len();
    for i in 0..n
        invariant
            n == columns@.len(),
            forall|k: int| 0 <= k < i ==> !ci_eq(#[trigger] columns.deep_view()[k], column_name@),
    {
        if crate::strutil::str_eq_ci(columns[i].as_str(), column_name) {
            proof {
                assert(columns.deep_view()[i as int] == columns@[i as int]@);
                assert(ci_eq(columns.deep_view()[i as int], column_name@));
                let j = choose|j: int|
                    0 <= j < columns.deep_view().len() && ci_eq(
                        #[trigger] columns.deep_view()[j],
                        column_name@,
                    ) && forall|k: int|
                        0 <= k < j ==> !ci_eq(#[trigger] columns.deep_view()[k], column_name@);
                assert(!(j < i as int) && !(j > i as int));
            }
            return Some(i);
        }
        proof {
            assert(columns.deep_view()[i as int] == columns@[i as int]@);
        }
    }
    None
}

/// The field at the given optional index, if it is in range.
pub fn get_field<'a>(fields: &'a Vec<String>, index: Option<usize>) -> (r: Option<&'a String>)
    ensures
        match r {
            Some(s) => index matches Some(i) && i < fields@.len() && s == fields@[index->0 as int],
            None => index is None || index->0 >= fields@.len(),
        },
{
    match index {
        Some(i) => {
            if i < fields.len() {
                Some(&fields[i])
            } else {
                None
            }
        },
        None => None,
    }
}

/// Index of the last backslash, if any.
pub open spec fn last_backslash(s: Seq<char>) -> Option<int> {
    if exists|i: int| 0 <= i < s.len() && s[i] == '\\' {
        let i = choose|i: int|
            0 <= i < s.len() && s[i] == '\\' && forall|k: int| i < k < s.len() ==> s[k] != '\\';
        Some(i)
    } else {
        None
    }
}

/// The task name: the last path segment, everything after the last
/// backslash.
pub open spec fn spec_task_name(path: Seq<char>) -> Seq<char> {
    match last_backslash(path) {
        Some(i) => path.skip(i + 1),
        None => path,
    }
}

/// The last path segment of a task path: everything after the last
/// backslash.
pub fn extract_task_name(task_path: &str) -> (r: String)
    ensures
        r@ == spec_task_name(task_path@),
{
    let cs = str_chars(task_path);
    let n = cs.len();
    let mut cut: usize = 0;
    let mut have: bool = false;
    let mut i: usize = n;
    while i > 0 && !have
        invariant
            i <= n,
            n == cs@.len(),
            cs@ == task_path@,
            have ==> i < n && cs@[i as int] == '\\' && (forall|k: int|
                i < k < n ==> cs@[k] != '\\'),
            !have ==> forall|k: int| i <= k < n ==> cs@[k] != '\\',
        decreases i,
    {
        if cs[i - 1] == '\\' {
            have = true;
            i = i - 1;
        } else {
            i = i - 1;
        }
    }
    if have {
        proof {
            assert(last_backslash(task_path@) matches Some(j) && j == i as int) by {
                assert(cs@[i as int] == '\\');
                let j = choose|j: int|
                    0 <= j < task_path@.len() && task_path@[j] == '\\' && forall|k: int|
                        j < k < task_path@.len() ==> task_path@[k] != '\\';
                assert(!(j < i as int) && !(j > i as int));
            }
        }
        let mut out: Vec<char> = Vec::new();
        for k in (i + 1)..n
            invariant
                i + 1 <= n,
                n == cs@.len(),
                cs@ == task_path@,
                out@ =~= task_path@.skip(i + 1).take(k - i - 1),
        {
            out.push(cs[k]);
            proof {
                assert(out@ =~= task_path@.skip(i + 1).take(k - i));
            }
        }
        proof {
            assert(task_path@.skip(i + 1).take(n - i - 1) =~= task_path@.skip(i + 1));
        }
        chars_to_string(out.as_slice())
    } else {
        proof {
            assert(last_backslash(task_path@) is None);
        }
        task_path.to_owned()
    }
}

/// The named field of a parsed CSV line under the header's columns, or
/// the default where the column or the field is missing.
pub open spec fn task_field_d(
    hdr: Seq<Seq<char>>,
    fields: Seq<Seq<char>>,
    name: Seq<char>,
    dflt: Seq<char>,
) -> Seq<char> {
    match spec_col_idx(hdr, name) {
        Some(i) => if 0 <= i < fields.len() {
            fields[i]
        } else {
            dflt
        },
        None => dflt,
    }
}

/// The named field of a parsed CSV line under the header's columns, or
/// `Unknown` where the column or the field is missing.
pub open spec fn task_field(hdr: Seq<Seq<char>>, fields: Seq<Seq<char>>, name: Seq<char>) -> Seq<
    char,
> {
    task_field_d(hdr, fields, name, "Unknown"@)
}

/// The full task path: the `TaskName` field, with a leading backslash added
/// where it lacks one.
pub open spec fn spec_task_path(name: Seq<char>) -> Seq<char> {
    if starts_with_seq(str_bytes(name), str_bytes("\\"@)) {
        name
    } else {
        "\\"@ + name
    }
}

/// The rendered command of a task line: the `Task To Run` field with the
/// running user appended.
pub open spec fn spec_task_command(hdr: Seq<Seq<char>>, fields: Seq<Seq<char>>) -> Seq<char> {
    task_field(hdr, fields, "Task To Run"@) + " (User: "@ + task_field(
        hdr,
        fields,
        "Run As User"@,
    ) + ")"@
}

/// The line calls for a record: its status reads `Ready` or `Running` up to
/// ASCII case, or its raw command matches the suspicious-task patterns.
#[verifier::opaque]
pub open spec fn spec_task_match(hdr: Seq<Seq<char>>, line: Seq<char>) -> bool {
    let fields = csv_split(line, 0, Seq::empty(), false);
    ||| ci_eq(task_field(hdr, fields, "Status"@), "Ready"@)
    ||| ci_eq(task_field(hdr, fields, "Status"@), "Running"@)
    ||| spec_suspicious_task_command(str_bytes(task_field(hdr, fields, "Task To Run"@)))
}

/// A data line yields a record exactly when it is non-blank and matches.
pub open spec fn spec_task_kept(hdr: Seq<Seq<char>>, line: Seq<char>) -> bool {
    trim_chars(line).len() > 0 && spec_task_match(hdr, line)
}

/// The record of one kept task line, field by field.
#[verifier::opaque]
pub open spec fn task_mech_matches(
    hdr: Seq<Seq<char>>,
    line: Seq<char>,
    m: PersistenceMechanism,
) -> bool {
    let fields = csv_split(line, 0, Seq::empty(), false);
    let path = spec_task_path(task_field(hdr, fields, "TaskName"@));
    let cmd = spec_task_command(hdr, fields);
    &&& m.mechanism_type@ == "Scheduled Task"@
    &&& m.name@ == spec_task_name(path)
    &&& m.command@ == cmd
    &&& m.source@ == "Task Scheduler: "@ + path
    &&& m.location@ == Seq::<char>::empty()
    &&& m.value@ == Seq::<char>::empty()
    &&& m.is_suspicious == spec_suspicious_command(str_bytes(cmd))
}

/// How many of the data lines before index `k` are kept.
pub open spec fn task_prefix_len(hdr: Seq<Seq<char>>, lines: Seq<Seq<char>>, k: int) -> int
    decreases k,
{
    if k <= 1 {
        0
    } else {
        task_prefix_len(hdr, lines, k - 1) + if spec_task_kept(hdr, lines[k - 1]) {
            1int
        } else {
            0int
        }
    }
}

/// The kept-line count grows with the prefix, by at most one per line.
pub proof fn lemma_task_prefix_mono(hdr: Seq<Seq<char>>, lines: Seq<Seq<char>>, a: int, b: int)
    requires
        a <= b,
    ensures
        task_prefix_len(hdr, lines, a) <= task_prefix_len(hdr, lines, b),
    decreases b - a,
{
    if a < b {
        lemma_task_prefix_mono(hdr, lines, a, b - 1);
    }
}

/// One collector step keeps the count and the per-line record mapping.
#[verifier::rlimit(100)]
proof fn lemma_task_loop_step(
    hdr: Seq<Seq<char>>,
    lines: Seq<Seq<char>>,
    pre: Seq<PersistenceMechanism>,
    post: Seq<PersistenceMechanism>,
    li: int,
)
    requires
        1 <= li < lines.len(),
        pre.len() == task_prefix_len(hdr, lines, li),
        forall|k: int|
            1 <= k < li && spec_task_kept(hdr, #[trigger] lines[k]) ==> task_mech_matches(
                hdr,
                lines[k],
                pre[task_prefix_len(hdr, lines, k)],
            ),
        if spec_task_kept(hdr, lines[li]) {
            post.len() == pre.len() + 1 && (forall|j: int|
                0 <= j < pre.len() ==> post[j] == pre[j]) && task_mech_matches(
                hdr,
                lines[li],
                post[pre.len() as int],
            )
        } else {
            post == pre
        },
    ensures
        post.len() == task_prefix_len(hdr, lines, li + 1),
        forall|k: int|
            1 <= k < li + 1 && spec_task_kept(hdr, #[trigger] lines[k]) ==> task_mech_matches(
                hdr,
                lines[k],
                post[task_prefix_len(hdr, lines, k)],
            ),
{
    assert forall|k: int|
        1 <= k < li + 1 && spec_task_kept(hdr, #[trigger] lines[k]) implies task_mech_matches(
        hdr,
        lines[k],
        post[task_prefix_len(hdr, lines, k)],
    ) by {
        lemma_task_prefix_mono(hdr, lines, 1, k);
        if k < li {
            lemma_task_prefix_mono(hdr, lines, k + 1, li);
            assert(task_prefix_len(hdr, lines, k + 1) == task_prefix_len(hdr, lines, k) + 1);
            assert(post[task_prefix_len(hdr, lines, k)] == pre[task_prefix_len(hdr, lines, k)]);
        } else {
            assert(k == li);
            assert(task_prefix_len(hdr, lines, k) == pre.len());
        }
    }
}

/// The records of the `schtasks` verbose CSV export: tasks whose status is
/// `Ready` or `Running`, or whose command matches the suspicious-command
/// patterns.  One record per kept data line, in line order, with the
/// fields of [`task_mech_matches`].
#[verifier::rlimit(100)]
pub fn collect_scheduled_tasks(csv_text: &str) -> (r: Vec<PersistenceMechanism>)
    ensures
        forall|i: int| 0 <= i < r@.len() ==> (#[trigger] r@[i]).mechanism_type@ == "Scheduled Task"@,
        ({
            let lines = spec_lines(csv_text@, 0, Seq::empty());
            if lines.len() <= 1 {
                r@.len() == 0
            } else {
                let hdr = csv_split(lines[0], 0, Seq::empty(), false);
                r@.len() == task_prefix_len(hdr, lines, lines.len() as int) && (forall|k: int|
                    1 <= k < lines.len() && spec_task_kept(hdr, #[trigger] lines[k])
                        ==> task_mech_matches(hdr, lines[k], r@[task_prefix_len(hdr, lines, k)]))
            }
        }),
{
    let lines = split_lines(csv_text);
    let ghost lines_dv = spec_lines(csv_text@, 0, Seq::empty());
    let mut out: Vec<PersistenceMechanism> = Vec::new();
    if lines.len() <= 1 {
        return out;
    }
    let header = parse_csv_line(lines[0].as_str());
    let ghost hdr = csv_split(lines_dv[0], 0, Seq::empty(), false);
    proof {
        assert(lines.deep_view()[0] == lines@[0]@);
        assert(header.deep_view() == hdr);
    }
    let nl = lines.len();
    for li in 1..nl
        invariant
            nl == lines@.len(),
            lines.deep_view() == lines_dv,
            nl == lines_dv.len(),
            nl > 1,
            header.deep_view() == hdr,
            hdr == csv_split(lines_dv[0], 0, Seq::empty(), false),
            out@.len() == task_prefix_len(hdr, lines_dv, li as int),
            forall|i: int|
                0 <= i < out@.len() ==> (#[trigger] out@[i]).mechanism_type@ == "Scheduled Task"@,
            forall|k: int|
                1 <= k < li && spec_task_kept(hdr, #[trigger] lines_dv[k]) ==> task_mech_matches(
                    hdr,
                    lines_dv[k],
                    out@[task_prefix_len(hdr, lines_dv, k)],
                ),
    {
        let ghost out_pre = out@;
        proof {
            assert(lines.deep_view()[li as int] == lines@[li as int]@);
        }
        let trimmed = trim_char_slice(str_chars(lines[li].as_str()).as_slice());
        if trimmed.len() > 0 {
            process_task_line(&lines, li, &header, &mut out);
        }
        proof {
            reveal(spec_task_kept);
            lemma_task_loop_step(hdr, lines_dv, out_pre, out@, li as int);
            assert forall|i: int|
                0 <= i < out@.len() implies (#[trigger] out@[i]).mechanism_type@
                == "Scheduled Task"@ by {
                if i >= out_pre.len() {
                    reveal(task_mech_matches);
                    assert(i == out_pre.len());
                    assert(task_mech_matches(hdr, lines_dv[li as int], out@[i]));
                }
            }
        }
    }
    out
}

/// Builds the record of one task CSV line, keeping it only when its status
/// or command calls for it.
fn process_task_line(
    lines: &Vec<String>,
    li: usize,
    header: &Vec<String>,
    out: &mut Vec<PersistenceMechanism>,
)
    requires
        li < lines@.len(),
    ensures
        ({
            let hdr = header.deep_view();
            let line = lines@[li as int]@;
            if spec_task_match(hdr, line) {
                &&& final(out)@.len() == old(out)@.len() + 1
                &&& (forall|j: int| 0 <= j < old(out)@.len() ==> final(out)@[j] == old(out)@[j])
                &&& task_mech_matches(hdr, line, final(out)@[old(out)@.len() as int])
            } else {
                final(out)@ == old(out)@
            }
        }),
{
    let ghost hdr = header.deep_view();
    let ghost line = lines@[li as int]@;
    let task_name_idx = find_column_index(header, "TaskName");
    let status_idx = find_column_index(header, "Status");
    let run_as_user_idx = find_column_index(header, "Run As User");
    let task_to_run_idx = find_column_index(header, "Task To Run");
    let fields = parse_csv_line(lines[li].as_str());
    let ghost fields_dv = csv_split(line, 0, Seq::empty(), false);
    let task_name = match get_field(&fields, task_name_idx) {
        Some(s) => s.clone(),
        None => "Unknown".to_owned(),
    };
    proof {
        if task_name_idx is Some && task_name_idx->0 < fields@.len() {
            assert(fields.deep_view()[task_name_idx->0 as int] == fields@[task_name_idx->0 as int]@);
        }
        assert(task_name@ == task_field(hdr, fields_dv, "TaskName"@));
    }
    let task_path = if crate::strutil::str_starts_with(task_name.as_str(), "\\") {
        task_name.clone()
    } else {
        let mut p = "\\".to_owned();
        p.append(task_name.as_str());
        p
    };
    proof {
        assert(task_path@ == spec_task_path(task_field(hdr, fields_dv, "TaskName"@)));
    }
    let status = match get_field(&fields, status_idx) {
        Some(s) => s.clone(),
        None => "Unknown".to_owned(),
    };
    proof {
        if status_idx is Some && status_idx->0 < fields@.len() {
            assert(fields.deep_view()[status_idx->0 as int] == fields@[status_idx->0 as int]@);
        }
        assert(status@ == task_field(hdr, fields_dv, "Status"@));
    }
    let run_as_user = match get_field(&fields, run_as_user_idx) {
        Some(s) => s.clone(),
        None => "Unknown".to_owned(),
    };
    proof {
        if run_as_user_idx is Some && run_as_user_idx->0 < fields@.len() {
            assert(fields.deep_view()[run_as_user_idx->0 as int] == fields@[run_as_user_idx->0 as int]@);
        }
        assert(run_as_user@ == task_field(hdr, fields_dv, "Run As User"@));
    }
    let command = match get_field(&fields, task_to_run_idx) {
        Some(s) => s.clone(),
        None => "Unknown".to_owned(),
    };
    proof {
        if task_to_run_idx is Some && task_to_run_idx->0 < fields@.len() {
            assert(fields.deep_view()[task_to_run_idx->0 as int] == fields@[task_to_run_idx->0 as int]@);
        }
        assert(command@ == task_field(hdr, fields_dv, "Task To Run"@));
    }
    let keep = crate::strutil::str_eq_ci(status.as_str(), "Ready") || crate::strutil::str_eq_ci(
        status.as_str(),
        "Running",
    ) || is_suspicious_task_command(command.as_str());
    proof {
        reveal(spec_task_match);
        assert(keep == spec_task_match(hdr, line));
    }
    if keep {
        let clean_name = extract_task_name(task_path.as_str());
        let mut source = "Task Scheduler: ".to_owned();
        source.append(task_path.as_str());
        let mut full_command = command.clone();
        full_command.append(" (User: ");
        full_command.append(run_as_user.as_str());
        full_command.append(")");
        proof {
            assert(full_command@ =~= spec_task_command(hdr, fields_dv));
        }
        let sus = is_suspicious_command(full_command.as_str());
        let rec = PersistenceMechanism::new_with_location_value(
            PersistenceType::ScheduledTask.as_str().to_owned(),
            clean_name,
            full_command,
            source,
            String::new(),
            String::new(),
            sus,
        );
        proof {
            reveal(spec_task_match);
            reveal(task_mech_matches);
            assert(task_mech_matches(hdr, line, rec));
        }
        out.push(rec);
    }
}

/// A finished line: one trailing carriage return dropped.
pub open spec fn strip_cr(cur: Seq<char>) -> Seq<char> {
    if cur.len() > 0 && cur.last() == '\r' {
        cur.drop_last()
    } else {
        cur
    }
}

/// Splitting text into lines at `\n`, dropping one trailing `\r` per
/// line; a final fragment without a newline forms a line only when
/// non-empty.
pub open spec fn spec_lines(s: Seq<char>, i: int, cur: Seq<char>) -> Seq<Seq<char>>
    decreases s.len() - i,
{
    if i < 0 || i >= s.len() {
        if cur.len() > 0 {
            seq![strip_cr(cur)]
        } else {
            Seq::empty()
        }
    } else if s[i] == '\n' {
        seq![strip_cr(cur)] + spec_lines(s, i + 1, Seq::empty())
    } else {
        spec_lines(s, i + 1, cur.push(s[i]))
    }
}

/// Splits text into lines at `\n`, dropping a trailing `\r` from each
/// line.
pub fn split_lines(text: &str) -> (r: Vec<String>)
    ensures
        r.deep_view() == spec_lines(text@, 0, Seq::empty()),
{
    let cs = str_chars(text);
    let n = cs.len();
    let mut lines: Vec<String> = Vec::new();
    let mut cur: Vec<char> = Vec::new();
    let mut i: usize = 0;
    while i < n
        invariant
            i <= n,
            n == cs@.len(),
            cs@ == text@,
            lines.deep_view() + spec_lines(text@, i as int, cur@) == spec_lines(
                text@,
                0,
                Seq::empty(),
            ),
        decreases n - i,
    {
        let c = cs[i];
        if c == '\n' {
            let ghost pre = lines.deep_view();
            let ghost cur_pre = cur@;
            if cur.len() > 0 && cur[cur.len() - 1] == '\r' {
                let _ = cur.pop();
            }
            proof {
                assert(cur@ =~= strip_cr(cur_pre));
            }
            lines.push(chars_to_string(cur.as_slice()));
            cur = Vec::new();
            proof {
                assert(lines.deep_view() =~= pre.push(strip_cr(cur_pre)));
            }
        } else {
            cur.push(c);
        }
        i = i + 1;
        proof {
            assert(lines.deep_view() + spec_lines(text@, i as int, cur@) =~= spec_lines(
                text@,
                0,
                Seq::empty(),
            ));
        }
    }
    let ghost pre = lines.deep_view();
    let ghost cur_pre = cur@;
    if cur.len() > 0 {
        if cur[cur.len() - 1] == '\r' {
            let _ = cur.pop();
        }
        proof {
            assert(cur@ =~= strip_cr(cur_pre));
        }
        lines.push(chars_to_string(cur.as_slice()));
        proof {
            assert(lines.deep_view() =~= pre.push(strip_cr(cur_pre)));
        }
    }
    proof {
        assert(lines.deep_view() =~= spec_lines(text@, 0, Seq::empty()));
    }
    lines
}

/// The mechanisms of `s` whose category reads `t`, in order.
pub open spec fn mechs_with_type(s: Seq<PersistenceMechanism>, t: Seq<char>) -> Seq<
    PersistenceMechanism,
>
    decreases s.len(),
{
    if s.len() == 0 {
        Seq::empty()
    } else if s.last().mechanism_type@ == t {
        mechs_with_type(s.drop_last(), t).push(s.last())
    } else {
        mechs_with_type(s.drop_last(), t)
    }
}

/// The mechanisms carrying the given category, in order.
pub fn filter_mechanisms_by_type(mechanisms: &[PersistenceMechanism], mechanism_type: &str) -> (r:
    Vec<PersistenceMechanism>)
    ensures
        r@ == mechs_with_type(mechanisms@, mechanism_type@),
{
    let mut out: Vec<PersistenceMechanism> = Vec::new();
    let n = mechanisms.len();
    for i in 0..n
        invariant
            n == mechanisms@.len(),
            out@ =~= mechs_with_type(mechanisms@.take(i as int), mechanism_type@),
    {
        proof {
            assert(mechanisms@.take(i + 1).drop_last() =~= mechanisms@.take(i as int));
            assert(mechanisms@.take(i + 1).last() == mechanisms@[i as int]);
        }
        if eq_str(mechanisms[i].mechanism_type.as_str(), mechanism_type) {
            out.push(mechanisms[i].clone());
        }
        assert(out@ =~= mechs_with_type(mechanisms@.take(i + 1), mechanism_type@));
    }
    assert(mechanisms@.take(n as int) =~= mechanisms@);
    out
}

/// The mechanisms of `s` whose command matches the heuristic, in order.
pub open spec fn suspicious_mechs(s: Seq<PersistenceMechanism>) -> Seq<PersistenceMechanism>
    decreases s.len(),
{
    if s.len() == 0 {
        Seq::empty()
    } else if spec_suspicious_command(str_bytes(s.last().command@)) {
        suspicious_mechs(s.drop_last()).push(s.last())
    } else {
        suspicious_mechs(s.drop_last())
    }
}

/// The mechanisms whose command matches the suspiciousness heuristic, in
/// order.
pub fn find_suspicious_mechanisms(mechanisms: &[PersistenceMechanism]) -> (r: Vec<
    PersistenceMechanism,
>)
    ensures
        r@ == suspicious_mechs(mechanisms@),
{
    let mut out: Vec<PersistenceMechanism> = Vec::new();
    let n = mechanisms.len();
    for i in 0..n
        invariant
            n == mechanisms@.len(),
            out@ =~= suspicious_mechs(mechanisms@.take(i as int)),
    {
        proof {
            assert(mechanisms@.take(i + 1).drop_last() =~= mechanisms@.take(i as int));
            assert(mechanisms@.take(i + 1).last() == mechanisms@[i as int]);
        }
        if is_mechanism_suspicious(&mechanisms[i]) {
            out.push(mechanisms[i].clone());
        }
        assert(out@ =~= suspicious_mechs(mechanisms@.take(i + 1)));
    }
    assert(mechanisms@.take(n as int) =~= mechanisms@);
    out
}

/// The key the mechanism list is sorted by: category, then name.
pub open spec fn mech_key(m: PersistenceMechanism) -> Seq<u8> {
    str_bytes(m.mechanism_type@) + seq![0u8] + str_bytes(m.name@)
}

fn mech_key_of(m: &PersistenceMechanism) -> (r: Vec<u8>)
    ensures
        r@ == mech_key(*m),
{
    let mut k: Vec<u8> = Vec::new();
    k.extend_from_slice(m.mechanism_type.as_str().as_bytes());
    k.push(0u8);
    k.extend_from_slice(m.name.as_str().as_bytes());
    assert(k@ =~= mech_key(*m));
    k
}

/// The record is accounted for: it arose from one of the registry,
/// startup-folder or service inputs, or it is a scheduled-task record
/// (whose CSV origin this predicate does not trace).
pub open spec fn mech_accounted_for(
    keys: Seq<RegRunKey>,
    folders: Seq<StartupFolder>,
    services: Seq<(String, String)>,
    m: PersistenceMechanism,
) -> bool {
    ||| reg_mech_from(keys, m)
    ||| startup_mech_from(folders, m)
    ||| service_mech_from(services, m)
    ||| m.mechanism_type@ == "Scheduled Task"@
}

/// The messages the persistence collector logs.
pub open spec fn persistence_log_msgs(
    reg: Option<Seq<char>>,
    startup: Option<Seq<char>>,
    services: Option<Seq<char>>,
    tasks: Option<Seq<char>>,
    c1: int,
    c2: int,
    c3: int,
    c4: int,
    total: int,
) -> Seq<(Seq<char>, Seq<char>)> {
    seq![("INFO"@, "Starting persistence mechanism detection"@)] + (match reg {
        None => seq![
            ("INFO"@, "Found "@ + dec_str(c1 as nat) + " Registry Run key entries"@),
        ],
        Some(e) => seq![("WARN"@, "Failed to collect Registry Run keys: "@ + e)],
    }) + (match startup {
        None => seq![
            ("INFO"@, "Found "@ + dec_str(c2 as nat) + " Startup folder entries"@),
        ],
        Some(e) => seq![("WARN"@, "Failed to collect Startup folder entries: "@ + e)],
    }) + (match services {
        None => seq![
            ("INFO"@, "Found "@ + dec_str(c3 as nat) + " potentially suspicious services"@),
        ],
        Some(e) => seq![("WARN"@, "Failed to collect service information: "@ + e)],
    }) + (match tasks {
        None => seq![("INFO"@, "Found "@ + dec_str(c4 as nat) + " scheduled tasks"@)],
        Some(e) => seq![("WARN"@, "Failed to collect scheduled tasks: "@ + e)],
    }) + seq![
        ("INFO"@, "Total persistence mechanisms found: "@ + dec_str(total as nat)),
        ("INFO"@, "Persistence mechanism detection completed"@),
    ]
}

/// The collector's log matches the expected shape: the first three counts
/// are fixed by the inputs, the task count `c4` makes up the difference.
pub open spec fn persistence_logs_ok(
    reg: Option<Seq<char>>,
    startup: Option<Seq<char>>,
    services: Option<Seq<char>>,
    tasks: Option<Seq<char>>,
    c1: int,
    c2: int,
    c3: int,
    total: int,
    entries: Seq<LogEntry>,
) -> bool {
    exists|c4: int|
        0 <= c4 && c1 + c2 + c3 + c4 == total && #[trigger] logs_match(
            entries,
            persistence_log_msgs(reg, startup, services, tasks, c1, c2, c3, c4, total),
        )
}

/// Builds, sorts and logs the persistence records of the four
/// sub-collectors; a failed sub-collector contributes a `WARN` entry and
/// nothing else.
#[verifier::rlimit(60)]
pub fn collect_persistence_mechanisms(
    reg_keys: Result<Vec<RegRunKey>, String>,
    startup_folders: Result<Vec<StartupFolder>, String>,
    services: Result<Vec<(String, String)>, String>,
    tasks_csv: Result<String, String>,
) -> (r: (Vec<PersistenceMechanism>, Vec<LogEntry>))
    ensures
        forall|i: int, j: int|
            0 <= i <= j < r.0@.len() ==> lex_le(
                mech_key(#[trigger] r.0@[i]),
                mech_key(#[trigger] r.0@[j]),
            ),
        forall|i: int|
            0 <= i < r.0@.len() ==> mech_accounted_for(
                (match reg_keys {
                    Ok(v) => v@,
                    Err(_) => Seq::empty(),
                }),
                (match startup_folders {
                    Ok(v) => v@,
                    Err(_) => Seq::empty(),
                }),
                (match services {
                    Ok(v) => v@,
                    Err(_) => Seq::empty(),
                }),
                #[trigger] r.0@[i],
            ),
        persistence_logs_ok(
            (match reg_keys {
                Ok(_) => None,
                Err(e) => Some(e@),
            }),
            (match startup_folders {
                Ok(_) => None,
                Err(e) => Some(e@),
            }),
            (match services {
                Ok(_) => None,
                Err(e) => Some(e@),
            }),
            (match tasks_csv {
                Ok(_) => None,
                Err(e) => Some(e@),
            }),
            (match reg_keys {
                Ok(v) => reg_prefix_len(v@, v@.len() as int),
                Err(_) => 0int,
            }),
            (match startup_folders {
                Ok(v) => startup_prefix_len(v@, v@.len() as int),
                Err(_) => 0int,
            }),
            (match services {
                Ok(v) => kept_service_count(v@),
                Err(_) => 0int,
            }),
            r.0@.len() as int,
            r.1@,
        ),
{
    let ghost gkeys: Seq<RegRunKey> = if reg_keys is Ok {
        reg_keys->Ok_0@
    } else {
        Seq::empty()
    };
    let ghost gfolders: Seq<StartupFolder> = if startup_folders is Ok {
        startup_folders->Ok_0@
    } else {
        Seq::empty()
    };
    let ghost gservices: Seq<(String, String)> = if services is Ok {
        services->Ok_0@
    } else {
        Seq::empty()
    };
    let mut logs: Vec<LogEntry> = Vec::new();
    logs.push(LogEntry::info("Starting persistence mechanism detection"));
    let mut mechanisms: Vec<PersistenceMechanism> = Vec::new();
    let ghost c1: int;
    match &reg_keys {
        Ok(keys) => {
            let found = collect_registry_run_keys(keys);
            let n = found.len();
            proof {
                c1 = n as int;
            }
            append_mechs(&mut mechanisms, found);
            let mut m = "Found ".to_owned();
            let num = u64_to_string(n as u64);
            m.append(num.as_str());
            m.append(" Registry Run key entries");
            logs.push(LogEntry::info(m.as_str()));
        },
        Err(e) => {
            proof {
                c1 = 0;
            }
            let mut m = "Failed to collect Registry Run keys: ".to_owned();
            m.append(e.as_str());
            logs.push(LogEntry::warn(m.as_str()));
        },
    }
    let ghost c2: int;
    match &startup_folders {
        Ok(folders) => {
            let found = collect_startup_folder_entries(folders);
            let n = found.len();
            proof {
                c2 = n as int;
            }
            append_mechs(&mut mechanisms, found);
            let mut m = "Found ".to_owned();
            let num = u64_to_string(n as u64);
            m.append(num.as_str());
            m.append(" Startup folder entries");
            logs.push(LogEntry::info(m.as_str()));
        },
        Err(e) => {
            proof {
                c2 = 0;
            }
            let mut m = "Failed to collect Startup folder entries: ".to_owned();
            m.append(e.as_str());
            logs.push(LogEntry::warn(m.as_str()));
        },
    }
    let ghost c3: int;
    match &services {
        Ok(svcs) => {
            let found = collect_service_persistence(svcs);
            let n = found.len();
            proof {
                c3 = n as int;
            }
            append_mechs(&mut mechanisms, found);
            let mut m = "Found ".to_owned();
            let num = u64_to_string(n as u64);
            m.append(num.as_str());
            m.append(" potentially suspicious services");
            logs.push(LogEntry::info(m.as_str()));
        },
        Err(e) => {
            proof {
                c3 = 0;
            }
            let mut m = "Failed to collect service information: ".to_owned();
            m.append(e.as_str());
            logs.push(LogEntry::warn(m.as_str()));
        },
    }
    let ghost c4: int;
    match &tasks_csv {
        Ok(csv) => {
            let found = collect_scheduled_tasks(csv.as_str());
            let n = found.len();
            proof {
                c4 = n as int;
            }
            append_mechs(&mut mechanisms, found);
            let mut m = "Found ".to_owned();
            let num = u64_to_string(n as u64);
            m.append(num.as_str());
            m.append(" scheduled tasks");
            logs.push(LogEntry::info(m.as_str()));
        },
        Err(e) => {
            proof {
                c4 = 0;
            }
            let mut m = "Failed to collect scheduled tasks: ".to_owned();
            m.append(e.as_str());
            logs.push(LogEntry::warn(m.as_str()));
        },
    }
    proof {
        assert(mechanisms@.len() == c1 + c2 + c3 + c4);
    }
    let mut pairs: Vec<(Vec<u8>, PersistenceMechanism)> = Vec::new();
    let nm = mechanisms.len();
    let ghost mech_all = mechanisms@;
    let mut rest = mechanisms;
    while rest.len() > 0
        invariant
            pairs@.len() + rest@.len() == mech_all.len(),
            rest@ == mech_all.skip(pairs@.len() as int),
            forall|k: int|
                0 <= k < mech_all.len() ==> mech_accounted_for(
                    gkeys,
                    gfolders,
                    gservices,
                    #[trigger] mech_all[k],
                ),
            forall|k: int|
                0 <= k < pairs@.len() ==> mech_accounted_for(
                    gkeys,
                    gfolders,
                    gservices,
                    (#[trigger] pairs@[k]).1,
                ) && pairs@[k].0@ == mech_key(pairs@[k].1),
        decreases rest@.len(),
    {
        let m = rest.remove(0);
        let key = mech_key_of(&m);
        let ghost gm = m;
        let ghost pre = pairs@;
        pairs.push((key, m));
        proof {
            assert(rest@ =~= mech_all.skip(pairs@.len() as int));
            assert(pairs@.last().1 == gm);
            assert(mech_accounted_for(gkeys, gfolders, gservices, gm));
            assert forall|k: int| 0 <= k < pairs@.len() implies mech_accounted_for(
                gkeys,
                gfolders,
                gservices,
                (#[trigger] pairs@[k]).1,
            ) && pairs@[k].0@ == mech_key(pairs@[k].1) by {
                if k < pre.len() {
                    assert(pairs@[k] == pre[k]);
                } else {
                    assert(pairs@[k] == pairs@.last());
                }
            }
        }
    }
    let ghost built = pairs@;
    let mut sorted = sort_keyed(pairs);
    let ghost sorted_all = sorted@;
    proof {
        broadcast use vstd::seq_lib::group_to_multiset_ensures;

        assert(sorted_all.to_multiset().len() == sorted_all.len());
        assert(built.to_multiset().len() == built.len());
        assert forall|k: int| 0 <= k < sorted_all.len() implies mech_accounted_for(
            gkeys,
            gfolders,
            gservices,
            (#[trigger] sorted_all[k]).1,
        ) && sorted_all[k].0@ == mech_key(sorted_all[k].1) by {
            assert(sorted_all.to_multiset().contains(sorted_all[k]));
            assert(built.to_multiset().contains(sorted_all[k]));
            assert(built.contains(sorted_all[k]));
            let j = choose|j: int| 0 <= j < built.len() && built[j] == sorted_all[k];
            assert(mech_accounted_for(gkeys, gfolders, gservices, built[j].1) && built[j].0@
                == mech_key(built[j].1));
        }
    }
    let mut out: Vec<PersistenceMechanism> = Vec::new();
    while sorted.len() > 0
        invariant
            out@.len() + sorted@.len() == sorted_all.len(),
            sorted@ == sorted_all.skip(out@.len() as int),
            crate::sortutil::keys_sorted(sorted_all),
            forall|k: int|
                0 <= k < sorted_all.len() ==> mech_accounted_for(
                    gkeys,
                    gfolders,
                    gservices,
                    (#[trigger] sorted_all[k]).1,
                ) && sorted_all[k].0@ == mech_key(sorted_all[k].1),
            forall|k: int| 0 <= k < out@.len() ==> #[trigger] out@[k] == sorted_all[k].1,
        decreases sorted@.len(),
    {
        let (_, m) = sorted.remove(0);
        out.push(m);
        proof {
            assert(sorted@ =~= sorted_all.skip(out@.len() as int));
        }
    }
    proof {
        assert forall|i: int, j: int| 0 <= i <= j < out@.len() implies lex_le(
            mech_key(#[trigger] out@[i]),
            mech_key(#[trigger] out@[j]),
        ) by {
            assert(out@[i] == sorted_all[i].1 && out@[j] == sorted_all[j].1);
            assert(lex_le(sorted_all[i].0@, sorted_all[j].0@));
        }
        assert forall|i: int| 0 <= i < out@.len() implies mech_accounted_for(
            gkeys,
            gfolders,
            gservices,
            #[trigger] out@[i],
        ) by {
            assert(out@[i] == sorted_all[i].1);
        }
    }
    let mut m = "Total persistence mechanisms found: ".to_owned();
    let num = u64_to_string(out.len() as u64);
    m.append(num.as_str());
    logs.push(LogEntry::info(m.as_str()));
    logs.push(LogEntry::info("Persistence mechanism detection completed"));
    proof {
        let reg_opt: Option<Seq<char>> = (match reg_keys {
            Ok(_) => None,
            Err(e) => Some(e@),
        });
        let st_opt: Option<Seq<char>> = (match startup_folders {
            Ok(_) => None,
            Err(e) => Some(e@),
        });
        let sv_opt: Option<Seq<char>> = (match services {
            Ok(_) => None,
            Err(e) => Some(e@),
        });
        let tk_opt: Option<Seq<char>> = (match tasks_csv {
            Ok(_) => None,
            Err(e) => Some(e@),
        });
        assert(logs_match(
            logs@,
            persistence_log_msgs(
                reg_opt,
                st_opt,
                sv_opt,
                tk_opt,
                c1,
                c2,
                c3,
                c4,
                out@.len() as int,
            ),
        ));
        assert(persistence_logs_ok(reg_opt, st_opt, sv_opt, tk_opt, c1, c2, c3, out@.len() as int, logs@));
    }
    (out, logs)
}

/// Moves every element of `extra` onto the end of `v`.
fn append_mechs(v: &mut Vec<PersistenceMechanism>, extra: Vec<PersistenceMechanism>)
    ensures
        final(v)@ == old(v)@ + extra@,
{
    let mut rest = extra;
    let ghost all = rest@;
    proof {
        assert(all.take(0) =~= Seq::<PersistenceMechanism>::empty());
        assert(v@ =~= old(v)@ + all.take(0));
        assert(rest@ =~= all.skip(0));
    }
    while rest.len() > 0
        invariant
            rest@.len() <= all.len(),
            v@ == old(v)@ + all.take(all.len() - rest@.len()),
            rest@ == all.skip(all.len() - rest@.len()),
        decreases rest@.len(),
    {
        let ghost k: int = all.len() - rest@.len();
        let x = rest.remove(0);
        v.push(x);
        proof {
            assert(all.skip(k).drop_first() =~= all.skip(k + 1));
            assert(all.take(k + 1) =~= all.take(k).push(all[k]));
            assert(v@ =~= old(v)@ + all.take(k + 1));
            assert(rest@ =~= all.skip(k + 1));
        }
    }
    proof {
        assert(all.take(all.len() as int) =~= all);
        assert(v@ =~= old(v)@ + all);
    }
}


} // verus!
