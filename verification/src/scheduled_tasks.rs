//! The scheduled-task collector: parses the scheduler's verbose CSV
//! export and, where available, per-task XML definitions, into
//! [`ScheduledTask`] records.  Running the scheduler's export happens
//! outside the library.

use vstd::prelude::*;
use vstd::string::StringExecFns;
use crate::forensic_types::{ScheduledTask, TaskTrigger, TaskAction, AuditEntry};
use crate::strutil::{
    str_bytes, contains_seq, contains_seq_ci, find_sub, first_sub, str_contains, str_contains_ci,
    lemma_str_bytes_valid, lemma_ascii_boundary, lemma_boundary_after_ascii, str_slice,
    lemma_encode_concat,
};
use crate::persistence::{
    parse_csv_line, find_column_index, get_field, extract_task_name, csv_split, spec_col_idx,
    task_field, task_field_d, spec_task_path, spec_task_name, spec_lines,
};
use crate::wrappers::now_rfc3339;

verus! {

/// The text of the first `<tag>…</tag>` element, if one is closed.
/// The tag names used here are ASCII.
pub fn extract_xml_value(xml_content: &str, tag_name: &str) -> (r: Option<String>)
    ensures
        r matches Some(v) ==> contains_seq(str_bytes(xml_content@), str_bytes(v@)),
        ({
            let hb = str_bytes(xml_content@);
            let ob = str_bytes("<"@ + tag_name@ + ">"@);
            let cb = str_bytes("</"@ + tag_name@ + ">"@);
            match first_sub(hb, ob) {
                None => r is None,
                Some(i) => {
                    let tail = hb.subrange(i + ob.len(), hb.len() as int);
                    match first_sub(tail, cb) {
                        None => r is None,
                        Some(j) => r matches Some(v) && str_bytes(v@) == tail.subrange(0, j),
                    }
                },
            }
        }),
{
    let mut open = "<".to_owned();
    open.append(tag_name);
    open.append(">");
    let mut close = "</".to_owned();
    close.append(tag_name);
    close.append(">");
    let ghost hb = str_bytes(xml_content@);
    let ghost ob = str_bytes("<"@ + tag_name@ + ">"@);
    let ghost cb = str_bytes("</"@ + tag_name@ + ">"@);
    proof {
        lemma_str_bytes_valid(xml_content@);
        assert(open@ =~= "<"@ + tag_name@ + ">"@);
        assert(close@ =~= "</"@ + tag_name@ + ">"@);
        assert(str_bytes(open@) == ob);
        assert(str_bytes(close@) == cb);
    }
    let xb = xml_content.as_bytes();
    let total = xb.len();
    match find_sub(xb, open.as_str().as_bytes()) {
        Some(i) => {
            let open_len = open.as_str().as_bytes().len();
            proof {
                assert(i + open_len <= total);
            }
            let start = i + open_len;
            let rest = &xb[start..xb.len()];
            match find_sub(rest, close.as_str().as_bytes()) {
                Some(j) => {
                    proof {
                        let sb = str_bytes(xml_content@);
                        reveal_strlit("<");
                        reveal_strlit(">");
                        reveal_strlit("</");
                        assert("<"@ =~= seq!['<'] && ">"@ =~= seq!['>'] && "</"@ =~= seq![
                            '<',
                            '/',
                        ]);
                        assert(vstd::utf8::is_ascii_chars(">"@));
                        vstd::utf8::is_ascii_chars_encode_utf8(">"@);
                        assert(str_bytes(">"@) =~= seq![0x3eu8]);
                        assert(vstd::utf8::is_ascii_chars("</"@));
                        vstd::utf8::is_ascii_chars_encode_utf8("</"@);
                        assert(str_bytes("</"@) =~= seq![0x3cu8, 0x2fu8]);
                        lemma_encode_concat("<"@ + tag_name@, ">"@);
                        assert(open@ == "<"@ + tag_name@ + ">"@);
                        assert(str_bytes(open@) =~= str_bytes("<"@ + tag_name@) + str_bytes(
                            ">"@,
                        ));
                        assert(str_bytes(open@).last() == 0x3e);
                        lemma_encode_concat("</"@ + tag_name@, ">"@);
                        lemma_encode_concat("</"@, tag_name@);
                        assert(close@ == "</"@ + tag_name@ + ">"@);
                        assert(str_bytes(close@) =~= (str_bytes("</"@) + str_bytes(tag_name@))
                            + str_bytes(">"@));
                        assert(str_bytes(close@)[0] == 0x3c);
                        assert(sb.subrange(i as int, i + open_len) == str_bytes(open@));
                        assert(sb[start - 1] == str_bytes(open@).last());
                        assert(sb[start - 1] == 0x3e);
                        lemma_ascii_boundary(sb, start - 1);
                        lemma_boundary_after_ascii(sb, start - 1);
                        assert(rest@ =~= sb.subrange(start as int, sb.len() as int));
                        assert(rest@.subrange(j as int, j + str_bytes(close@).len()) == str_bytes(
                            close@,
                        ));
                        assert(rest@[j as int] == 0x3c);
                        assert(sb[start + j] == 0x3c);
                        lemma_ascii_boundary(sb, start + j);
                    }
                    let v = str_slice(xml_content, start, start + j);
                    proof {
                        let sb = str_bytes(xml_content@);
                        assert(contains_seq(sb, str_bytes(v@))) by {
                            assert(sb.subrange(start as int, start as int + str_bytes(v@).len())
                                == str_bytes(v@));
                        }
                        assert(first_sub(hb, ob) == Some(i as int));
                        assert(rest@ =~= hb.subrange(i + ob.len(), hb.len() as int));
                        assert(first_sub(rest@, cb) == Some(j as int));
                        assert(str_bytes(v@) =~= rest@.subrange(0, j as int));
                    }
                    Some(v.to_owned())
                },
                None => {
                    proof {
                        assert(first_sub(hb, ob) == Some(i as int));
                        assert(rest@ =~= hb.subrange(i + ob.len(), hb.len() as int));
                        assert(first_sub(rest@, cb) is None);
                    }
                    None
                },
            }
        },
        None => {
            proof {
                assert(first_sub(hb, ob) is None);
            }
            None
        },
    }
}

/// The value of the first closed `<tag>` element, or the given default.
pub fn xml_value_or(xml_content: &str, tag_name: &str, default: &str) -> (r: String) {
    match extract_xml_value(xml_content, tag_name) {
        Some(v) => v,
        None => default.to_owned(),
    }
}

/// The triggers the XML mentions: time, logon and boot triggers, with an
/// `Unknown` placeholder when none is recognized.
pub fn parse_task_triggers(xml_content: &str) -> (r: Vec<TaskTrigger>)
    ensures
        r@.len() >= 1,
        contains_seq(str_bytes(xml_content@), str_bytes("<LogonTrigger>"@)) ==> exists|i: int|
            0 <= i < r@.len() && (#[trigger] r@[i]).trigger_type@ == "Logon"@,
        contains_seq(str_bytes(xml_content@), str_bytes("<BootTrigger>"@)) ==> exists|i: int|
            0 <= i < r@.len() && (#[trigger] r@[i]).trigger_type@ == "Boot"@,
{
    let mut triggers: Vec<TaskTrigger> = Vec::new();
    let ghost mut logon_idx: int = -1;
    let ghost mut boot_idx: int = -1;
    let enabled = !str_contains(xml_content, "<Enabled>false</Enabled>");
    if str_contains(xml_content, "<TimeTrigger>") {
        triggers.push(
            TaskTrigger {
                trigger_type: "Time".to_owned(),
                start_boundary: xml_value_or(xml_content, "StartBoundary", "Unknown"),
                end_boundary: xml_value_or(xml_content, "EndBoundary", "None"),
                enabled,
                repetition_interval: xml_value_or(xml_content, "Interval", "None"),
                repetition_duration: xml_value_or(xml_content, "Duration", "None"),
            },
        );
    }
    if str_contains(xml_content, "<LogonTrigger>") {
        triggers.push(
            TaskTrigger {
                trigger_type: "Logon".to_owned(),
                start_boundary: "On logon".to_owned(),
                end_boundary: "None".to_owned(),
                enabled,
                repetition_interval: "None".to_owned(),
                repetition_duration: "None".to_owned(),
            },
        );
        proof {
            logon_idx = triggers@.len() - 1;
            assert(triggers@[logon_idx].trigger_type@ == "Logon"@);
        }
    }
    if str_contains(xml_content, "<BootTrigger>") {
        triggers.push(
            TaskTrigger {
                trigger_type: "Boot".to_owned(),
                start_boundary: "On boot".to_owned(),
                end_boundary: "None".to_owned(),
                enabled,
                repetition_interval: "None".to_owned(),
                repetition_duration: "None".to_owned(),
            },
        );
        proof {
            boot_idx = triggers@.len() - 1;
            assert(triggers@[boot_idx].trigger_type@ == "Boot"@);
        }
    }
    proof {
        if contains_seq(str_bytes(xml_content@), str_bytes("<LogonTrigger>"@)) {
            assert(0 <= logon_idx < triggers@.len() && triggers@[logon_idx].trigger_type@
                == "Logon"@);
        }
        if contains_seq(str_bytes(xml_content@), str_bytes("<BootTrigger>"@)) {
            assert(0 <= boot_idx < triggers@.len() && triggers@[boot_idx].trigger_type@
                == "Boot"@);
        }
    }
    if triggers.len() == 0 {
        triggers.push(
            TaskTrigger {
                trigger_type: "Unknown".to_owned(),
                start_boundary: "Unknown".to_owned(),
                end_boundary: "Unknown".to_owned(),
                enabled: true,
                repetition_interval: "Unknown".to_owned(),
                repetition_duration: "Unknown".to_owned(),
            },
        );
    }
    triggers
}

/// The actions the XML mentions: an execute action where one occurs, with
/// an `Unknown` placeholder otherwise.
pub fn parse_task_actions(xml_content: &str) -> (r: Vec<TaskAction>)
    ensures
        r@.len() >= 1,
        contains_seq(str_bytes(xml_content@), str_bytes("<Exec>"@)) ==> r@[0].action_type@
            == "Execute"@,
{
    let mut actions: Vec<TaskAction> = Vec::new();
    if str_contains(xml_content, "<Exec>") {
        actions.push(
            TaskAction {
                action_type: "Execute".to_owned(),
                path: xml_value_or(xml_content, "Command", "Unknown"),
                arguments: xml_value_or(xml_content, "Arguments", ""),
                working_directory: xml_value_or(xml_content, "WorkingDirectory", ""),
            },
        );
    }
    if actions.len() == 0 {
        actions.push(
            TaskAction {
                action_type: "Unknown".to_owned(),
                path: "Unknown".to_owned(),
                arguments: String::new(),
                working_directory: String::new(),
            },
        );
    }
    actions
}

/// Builds a task record from its XML definition.
pub fn parse_task_xml(xml_content: &str, task_path: &str) -> (r: ScheduledTask)
    ensures
        r.path@ == task_path@,
        r.triggers@.len() >= 1,
        r.actions@.len() >= 1,
{
    let task_name = extract_task_name(task_path);
    let author = xml_value_or(xml_content, "Author", "Unknown");
    let description = xml_value_or(xml_content, "Description", "No description");
    let creation_date = xml_value_or(xml_content, "Date", "Unknown");
    let command = xml_value_or(xml_content, "Command", "Unknown");
    let arguments = xml_value_or(xml_content, "Arguments", "");
    let working_directory = xml_value_or(xml_content, "WorkingDirectory", "");
    let run_as_user = match extract_xml_value(xml_content, "UserId") {
        Some(v) => v,
        None => xml_value_or(xml_content, "Principal", "Unknown"),
    };
    let triggers = parse_task_triggers(xml_content);
    let actions = parse_task_actions(xml_content);
    ScheduledTask {
        name: task_name,
        path: task_path.to_owned(),
        state: "Unknown".to_owned(),
        last_run_time: "Unknown".to_owned(),
        next_run_time: "Unknown".to_owned(),
        run_as_user,
        command,
        arguments,
        working_directory,
        triggers,
        actions,
        creation_date,
        author,
        description,
    }
}

/// The basic record of one CSV data line, field by field: the named
/// columns filled from the line, everything else a fixed default.
#[verifier::opaque]
pub open spec fn basic_task_matches(hdr: Seq<Seq<char>>, line: Seq<char>, t: ScheduledTask) -> bool {
    let fields = csv_split(line, 0, Seq::empty(), false);
    let path = spec_task_path(task_field(hdr, fields, "TaskName"@));
    &&& t.name@ == spec_task_name(path)
    &&& t.path@ == path
    &&& t.state@ == task_field(hdr, fields, "Status"@)
    &&& t.last_run_time@ == task_field_d(hdr, fields, "Last Run Time"@, "Never"@)
    &&& t.next_run_time@ == task_field_d(hdr, fields, "Next Run Time"@, "Never"@)
    &&& t.run_as_user@ == task_field(hdr, fields, "Run As User"@)
    &&& t.command@ == task_field(hdr, fields, "Task To Run"@)
    &&& t.arguments@ == Seq::<char>::empty()
    &&& t.working_directory@ == Seq::<char>::empty()
    &&& t.triggers@ == Seq::<TaskTrigger>::empty()
    &&& t.actions@ == Seq::<TaskAction>::empty()
    &&& t.creation_date@ == "Unknown"@
    &&& t.author@ == "Unknown"@
    &&& t.description@ == "Basic task info from CSV"@
}

/// Builds basic task records from the scheduler's verbose CSV export,
/// with an audit trail: one record per data line, in line order.
#[verifier::rlimit(100)]
pub fn collect_scheduled_tasks(csv_text: &str) -> (r: (Vec<ScheduledTask>, Vec<AuditEntry>))
    ensures
        r.1@.len() >= 2,
        ({
            let lines = spec_lines(csv_text@, 0, Seq::empty());
            if lines.len() <= 1 {
                r.0@.len() == 0
            } else {
                let hdr = csv_split(lines[0], 0, Seq::empty(), false);
                r.0@.len() == lines.len() - 1 && (forall|k: int|
                    1 <= k < lines.len() ==> basic_task_matches(
                        hdr,
                        #[trigger] lines[k],
                        r.0@[k - 1],
                    ))
            }
        }),
{
    let mut audit: Vec<AuditEntry> = Vec::new();
    audit.push(
        AuditEntry {
            timestamp: now_rfc3339(),
            level: "INFO".to_owned(),
            component: "scheduled_tasks".to_owned(),
            action: "start_collection".to_owned(),
            details: "Starting scheduled tasks analysis".to_owned(),
            duration_ms: None,
            result: "started".to_owned(),
        },
    );
    let mut tasks: Vec<ScheduledTask> = Vec::new();
    let lines = crate::persistence::split_lines(csv_text);
    let ghost lines_dv = spec_lines(csv_text@, 0, Seq::empty());
    if lines.len() > 1 {
        let header = parse_csv_line(lines[0].as_str());
        let ghost hdr = csv_split(lines_dv[0], 0, Seq::empty(), false);
        proof {
            assert(lines.deep_view()[0] == lines@[0]@);
            assert(header.deep_view() == hdr);
        }
        let task_name_idx = find_column_index(&header, "TaskName");
        let next_run_idx = find_column_index(&header, "Next Run Time");
        let status_idx = find_column_index(&header, "Status");
        let last_run_idx = find_column_index(&header, "Last Run Time");
        let run_as_user_idx = find_column_index(&header, "Run As User");
        let task_to_run_idx = find_column_index(&header, "Task To Run");
        let nl = lines.len();
        #[verifier::loop_isolation(false)]
        for li in 1..nl
            invariant
                tasks@.len() == li - 1,
                forall|k: int|
                    1 <= k < li ==> basic_task_matches(hdr, #[trigger] lines_dv[k], tasks@[k - 1]),
        {
            proof {
                assert(lines.deep_view()[li as int] == lines@[li as int]@);
            }
            let ghost line = lines_dv[li as int];
            let fields = parse_csv_line(lines[li].as_str());
            let ghost fields_dv = csv_split(line, 0, Seq::empty(), false);
            let task_name = match get_field(&fields, task_name_idx) {
                Some(s) => s.clone(),
                None => "Unknown".to_owned(),
            };
            proof {
                if task_name_idx is Some && task_name_idx->0 < fields@.len() {
                    assert(fields.deep_view()[task_name_idx->0 as int]
                        == fields@[task_name_idx->0 as int]@);
                }
                assert(task_name@ == task_field(hdr, fields_dv, "TaskName"@));
            }
            let task_path = if crate::strutil::str_starts_with(task_name.as_str(), "\\") {
                task_name.clone()
            } else {
                let mut p = "\\".to_owned();
                p.append(task_name.as_str());
                p
            };
            proof {
                assert(task_path@ == spec_task_path(task_field(hdr, fields_dv, "TaskName"@)));
            }
            let basic = ScheduledTask {
                name: extract_task_name(task_path.as_str()),
                path: task_path,
                state: field_or(&fields, status_idx, "Unknown"),
                last_run_time: field_or(&fields, last_run_idx, "Never"),
                next_run_time: field_or(&fields, next_run_idx, "Never"),
                run_as_user: field_or(&fields, run_as_user_idx, "Unknown"),
                command: field_or(&fields, task_to_run_idx, "Unknown"),
                arguments: String::new(),
                working_directory: String::new(),
                triggers: Vec::new(),
                actions: Vec::new(),
                creation_date: "Unknown".to_owned(),
                author: "Unknown".to_owned(),
                description: "Basic task info from CSV".to_owned(),
            };
            proof {
                reveal(basic_task_matches);
                assert(basic_task_matches(hdr, line, basic));
            }
            tasks.push(basic);
        }
        proof {
            assert(tasks@.len() == lines_dv.len() - 1);
        }
    }
    audit.push(
        AuditEntry {
            timestamp: now_rfc3339(),
            level: "INFO".to_owned(),
            component: "scheduled_tasks".to_owned(),
            action: "complete_collection".to_owned(),
            details: "Scheduled task collection completed".to_owned(),
            duration_ms: None,
            result: "success".to_owned(),
        },
    );
    (tasks, audit)
}

/// The field at the given index, or the default.
fn field_or(fields: &Vec<String>, index: Option<usize>, default: &str) -> (r: String)
    ensures
        r@ == (match index {
            Some(i) => if (i as int) < fields@.len() {
                fields.deep_view()[i as int]
            } else {
                default@
            },
            None => default@,
        }),
{
    let r = match get_field(fields, index) {
        Some(s) => s.clone(),
        None => default.to_owned(),
    };
    proof {
        if index is Some && index->0 < fields@.len() {
            assert(fields.deep_view()[index->0 as int] == fields@[index->0 as int]@);
        }
    }
    r
}

/// A task trips the suspicion heuristic: a suspicious command location or
/// tool, a one-letter name, update or system naming without a Microsoft
/// author, logon or boot triggers, or system-level accounts.
pub open spec fn spec_suspicious_task(t: ScheduledTask) -> bool {
    ||| contains_seq(str_bytes(t.command@), str_bytes("\\Temp\\"@))
    ||| contains_seq(str_bytes(t.command@), str_bytes("\\AppData\\"@))
    ||| contains_seq(str_bytes(t.command@), str_bytes("powershell"@))
    ||| contains_seq(str_bytes(t.command@), str_bytes("cmd.exe"@))
    ||| contains_seq(str_bytes(t.command@), str_bytes("wscript"@))
    ||| contains_seq(str_bytes(t.command@), str_bytes("cscript"@))
    ||| t.name@.len() == 1
    ||| (contains_seq(str_bytes(t.name@), str_bytes("update"@)) && !contains_seq(
        str_bytes(t.author@),
        str_bytes("Microsoft"@),
    ))
    ||| (contains_seq(str_bytes(t.name@), str_bytes("system"@)) && !contains_seq(
        str_bytes(t.author@),
        str_bytes("Microsoft"@),
    ))
    ||| (exists|i: int| 0 <= i < t.triggers@.len() && (#[trigger] t.triggers@[i]).trigger_type@ == "Logon"@)
    ||| (exists|i: int| 0 <= i < t.triggers@.len() && (#[trigger] t.triggers@[i]).trigger_type@ == "Boot"@)
    ||| contains_seq(str_bytes(t.run_as_user@), str_bytes("SYSTEM"@))
    ||| contains_seq(str_bytes(t.run_as_user@), str_bytes("Administrator"@))
}

/// Exec counterpart of [`spec_suspicious_task`].
pub fn is_suspicious_task(task: &ScheduledTask) -> (r: bool)
    ensures
        r == spec_suspicious_task(*task),
{
    if str_contains(task.command.as_str(), "\\Temp\\") || str_contains(
        task.command.as_str(),
        "\\AppData\\",
    ) || str_contains(task.command.as_str(), "powershell") || str_contains(
        task.command.as_str(),
        "cmd.exe",
    ) || str_contains(task.command.as_str(), "wscript") || str_contains(
        task.command.as_str(),
        "cscript",
    ) {
        return true;
    }
    let name_len = crate::strutil::str_chars(task.name.as_str()).len();
    if name_len == 1 {
        return true;
    }
    let ms = str_contains(task.author.as_str(), "Microsoft");
    if (str_contains(task.name.as_str(), "update") && !ms) || (str_contains(
        task.name.as_str(),
        "system",
    ) && !ms) {
        return true;
    }
    if has_trigger_type(&task.triggers, "Logon") || has_trigger_type(&task.triggers, "Boot") {
        return true;
    }
    str_contains(task.run_as_user.as_str(), "SYSTEM") || str_contains(
        task.run_as_user.as_str(),
        "Administrator",
    )
}

/// Whether some trigger carries the given type.
fn has_trigger_type(triggers: &Vec<TaskTrigger>, ty: &str) -> (r: bool)
    ensures
        r == exists|i: int|
            0 <= i < triggers@.len() && (#[trigger] triggers@[i]).trigger_type@ == ty@,
{
    let n = triggers.len();
    for i in 0..n
        invariant
            n == triggers@.len(),
            forall|k: int| 0 <= k < i ==> (#[trigger] triggers@[k]).trigger_type@ != ty@,
    {
        if crate::types::eq_str(triggers[i].trigger_type.as_str(), ty) {
            return true;
        }
    }
    false
}

/// The tasks of `s` the heuristic flags, in order.
pub open spec fn suspicious_tasks_of(s: Seq<ScheduledTask>) -> Seq<ScheduledTask>
    decreases s.len(),
{
    if s.len() == 0 {
        Seq::empty()
    } else if spec_suspicious_task(s.last()) {
        suspicious_tasks_of(s.drop_last()).push(s.last())
    } else {
        suspicious_tasks_of(s.drop_last())
    }
}

/// Exactly the tasks the heuristic flags, in order.
pub fn find_suspicious_tasks<'a>(tasks: &'a [ScheduledTask]) -> (r: Vec<&'a ScheduledTask>)
    ensures
        r@.map_values(|t: &ScheduledTask| *t) == suspicious_tasks_of(tasks@),
{
    let mut out: Vec<&'a ScheduledTask> = Vec::new();
    let n = tasks.len();
    for i in 0..n
        invariant
            n == tasks@.len(),
            out@.map_values(|t: &ScheduledTask| *t) =~= suspicious_tasks_of(tasks@.take(i as int)),
    {
        proof {
            assert(tasks@.take(i + 1).drop_last() =~= tasks@.take(i as int));
            assert(tasks@.take(i + 1).last() == tasks@[i as int]);
        }
        if is_suspicious_task(&tasks[i]) {
            out.push(&tasks[i]);
        }
        assert(out@.map_values(|t: &ScheduledTask| *t) =~= suspicious_tasks_of(
            tasks@.take(i + 1),
        ));
    }
    assert(tasks@.take(n as int) =~= tasks@);
    out
}

/// The task has a boot or logon trigger.
pub open spec fn is_startup_task(t: ScheduledTask) -> bool {
    exists|k: int|
        0 <= k < t.triggers@.len() && ((#[trigger] t.triggers@[k]).trigger_type@ == "Boot"@
            || t.triggers@[k].trigger_type@ == "Logon"@)
}

/// The tasks of `s` with a boot or logon trigger, in order.
pub open spec fn startup_tasks_of(s: Seq<ScheduledTask>) -> Seq<ScheduledTask>
    decreases s.len(),
{
    if s.len() == 0 {
        Seq::empty()
    } else if is_startup_task(s.last()) {
        startup_tasks_of(s.drop_last()).push(s.last())
    } else {
        startup_tasks_of(s.drop_last())
    }
}

/// Exactly the tasks with a boot or logon trigger, in order.
pub fn get_startup_tasks<'a>(tasks: &'a [ScheduledTask]) -> (r: Vec<&'a ScheduledTask>)
    ensures
        r@.map_values(|t: &ScheduledTask| *t) == startup_tasks_of(tasks@),
{
    let mut out: Vec<&'a ScheduledTask> = Vec::new();
    let n = tasks.len();
    for i in 0..n
        invariant
            n == tasks@.len(),
            out@.map_values(|t: &ScheduledTask| *t) =~= startup_tasks_of(tasks@.take(i as int)),
    {
        proof {
            assert(tasks@.take(i + 1).drop_last() =~= tasks@.take(i as int));
            assert(tasks@.take(i + 1).last() == tasks@[i as int]);
        }
        if has_trigger_type(&tasks[i].triggers, "Boot") || has_trigger_type(
            &tasks[i].triggers,
            "Logon",
        ) {
            out.push(&tasks[i]);
        }
        assert(out@.map_values(|t: &ScheduledTask| *t) =~= startup_tasks_of(tasks@.take(i + 1)));
    }
    assert(tasks@.take(n as int) =~= tasks@);
    out
}

/// The tasks whose command contains the given text, up to ASCII case, in
/// order.
pub fn find_tasks_by_command<'a>(tasks: &'a [ScheduledTask], pattern: &str) -> (r: Vec<
    &'a ScheduledTask,
>)
    ensures
        forall|i: int|
            0 <= i < r@.len() ==> contains_seq_ci(
                str_bytes((#[trigger] r@[i]).command@),
                str_bytes(pattern@),
            ),
{
    let mut out: Vec<&'a ScheduledTask> = Vec::new();
    let n = tasks.len();
    for i in 0..n
        invariant
            n == tasks@.len(),
            forall|k: int|
                0 <= k < out@.len() ==> contains_seq_ci(
                    str_bytes((#[trigger] out@[k]).command@),
                    str_bytes(pattern@),
                ),
    {
        if str_contains_ci(tasks[i].command.as_str(), pattern) {
            out.push(&tasks[i]);
        }
    }
    out
}

/// Counts per category over a task collection.
#[derive(Debug, Clone)]
pub struct TaskStatistics {
    pub total_tasks: usize,
    pub enabled_tasks: usize,
    pub disabled_tasks: usize,
    pub logon_triggers: usize,
    pub boot_triggers: usize,
    pub time_triggers: usize,
    pub microsoft_tasks: usize,
    pub third_party_tasks: usize,
}

/// The task counts as enabled: its state reads `Ready` or `Running`,
/// case-insensitively.
pub open spec fn spec_task_enabled(t: ScheduledTask) -> bool {
    ||| crate::strutil::lower_bytes(str_bytes(t.state@)) == crate::strutil::lower_bytes(
        str_bytes("Ready"@),
    )
    ||| crate::strutil::lower_bytes(str_bytes(t.state@)) == crate::strutil::lower_bytes(
        str_bytes("Running"@),
    )
}

/// How many tasks of `s` satisfy `Ready`-or-`Running`.
pub open spec fn count_enabled(s: Seq<ScheduledTask>) -> int
    decreases s.len(),
{
    if s.len() == 0 {
        0
    } else {
        count_enabled(s.drop_last()) + (if spec_task_enabled(s.last()) {
            1int
        } else {
            0int
        })
    }
}

/// The task carries a trigger of the given type.
pub open spec fn spec_has_trigger(t: ScheduledTask, ty: Seq<char>) -> bool {
    exists|k: int| 0 <= k < t.triggers@.len() && (#[trigger] t.triggers@[k]).trigger_type@ == ty
}

/// How many tasks of `s` carry a trigger of the given type.
pub open spec fn count_with_trigger(s: Seq<ScheduledTask>, ty: Seq<char>) -> int
    decreases s.len(),
{
    if s.len() == 0 {
        0
    } else {
        count_with_trigger(s.drop_last(), ty) + (if spec_has_trigger(s.last(), ty) {
            1int
        } else {
            0int
        })
    }
}

/// How many tasks of `s` name Microsoft as the author.
pub open spec fn count_microsoft(s: Seq<ScheduledTask>) -> int
    decreases s.len(),
{
    if s.len() == 0 {
        0
    } else {
        count_microsoft(s.drop_last()) + (if contains_seq(
            str_bytes(s.last().author@),
            str_bytes("Microsoft"@),
        ) {
            1int
        } else {
            0int
        })
    }
}

/// Counts tasks by state, trigger type, and author.
pub fn get_scheduled_task_statistics(tasks: &[ScheduledTask]) -> (r: TaskStatistics)
    ensures
        r.total_tasks == tasks@.len(),
        r.enabled_tasks == count_enabled(tasks@),
        r.enabled_tasks + r.disabled_tasks == r.total_tasks,
        r.logon_triggers == count_with_trigger(tasks@, "Logon"@),
        r.boot_triggers == count_with_trigger(tasks@, "Boot"@),
        r.time_triggers == count_with_trigger(tasks@, "Time"@),
        r.microsoft_tasks == count_microsoft(tasks@),
        r.microsoft_tasks + r.third_party_tasks == r.total_tasks,
{
    let n = tasks.len();
    let mut enabled: usize = 0;
    let mut logon: usize = 0;
    let mut boot: usize = 0;
    let mut time: usize = 0;
    let mut microsoft: usize = 0;
    for i in 0..n
        invariant
            n == tasks@.len(),
            enabled == count_enabled(tasks@.take(i as int)),
            logon == count_with_trigger(tasks@.take(i as int), "Logon"@),
            boot == count_with_trigger(tasks@.take(i as int), "Boot"@),
            time == count_with_trigger(tasks@.take(i as int), "Time"@),
            microsoft == count_microsoft(tasks@.take(i as int)),
            enabled <= i,
            microsoft <= i,
            logon <= i,
            boot <= i,
            time <= i,
    {
        proof {
            assert(tasks@.take(i + 1).drop_last() =~= tasks@.take(i as int));
            assert(tasks@.take(i + 1).last() == tasks@[i as int]);
            reveal_strlit("Logon");
            reveal_strlit("Boot");
            reveal_strlit("Time");
        }
        if crate::strutil::str_eq_ci(tasks[i].state.as_str(), "Ready") || crate::strutil::str_eq_ci(
            tasks[i].state.as_str(),
            "Running",
        ) {
            enabled = enabled + 1;
        }
        if has_trigger_type(&tasks[i].triggers, "Logon") {
            logon = logon + 1;
        }
        if has_trigger_type(&tasks[i].triggers, "Boot") {
            boot = boot + 1;
        }
        if has_trigger_type(&tasks[i].triggers, "Time") {
            time = time + 1;
        }
        if str_contains(tasks[i].author.as_str(), "Microsoft") {
            microsoft = microsoft + 1;
        }
    }
    proof {
        assert(tasks@.take(n as int) =~= tasks@);
    }
    TaskStatistics {
        total_tasks: n,
        enabled_tasks: enabled,
        disabled_tasks: n - enabled,
        logon_triggers: logon,
        boot_triggers: boot,
        time_triggers: time,
        microsoft_tasks: microsoft,
        third_party_tasks: n - microsoft,
    }
}

} // verus!
