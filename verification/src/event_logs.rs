//! The event-log collector: filters raw records of the Security, System
//! and Application logs through a curated event-ID map, renders levels and
//! timestamps, and sorts each log newest-first.  Reading the OS event logs
//! happens outside the library; hosts without them contribute empty record
//! lists.

use vstd::prelude::*;
use vstd::string::StringExecFns;
use crate::types::{EventLogs, EventLogEntry, LogEntry, logs_match, eq_str};
use crate::strutil::{str_bytes, dec_str, u64_to_string};
use crate::wellformed::is_rfc3339;
use crate::sortutil::{lex_le, sort_keyed_desc, keys_sorted_desc};

verus! {

/// A curated filter: the event IDs worth keeping, each with its canonical
/// human-readable summary.
#[derive(Debug, Clone)]
pub struct EventFilter {
    pub entries: Vec<(u32, String)>,
}

/// The summary the filter gives an event ID: the first entry that carries
/// it.
pub open spec fn filter_msg(entries: Seq<(u32, String)>, id: u32) -> Option<Seq<char>>
    decreases entries.len(),
{
    if entries.len() == 0 {
        None
    } else if entries.first().0 == id {
        Some(entries.first().1@)
    } else {
        filter_msg(entries.drop_first(), id)
    }
}

impl EventFilter {
    /// An empty filter: it keeps nothing.
    pub fn new() -> (r: EventFilter)
        ensures
            r.entries@.len() == 0,
    {
        EventFilter { entries: Vec::new() }
    }

    /// Adds an ID with its summary.
    pub fn add(&mut self, id: u32, message: &str)
        ensures
            final(self).entries@.len() == old(self).entries@.len() + 1,
            final(self).entries@.take(old(self).entries@.len() as int) == old(self).entries@,
            final(self).entries@.last().0 == id,
            final(self).entries@.last().1@ == message@,
    {
        self.entries.push((id, message.to_owned()));
        proof {
            assert(self.entries@.take(old(self).entries@.len() as int) =~= old(self).entries@);
        }
    }

    /// The summary for an ID, if the filter keeps it.
    pub fn message_for(&self, id: u32) -> (r: Option<&String>)
        ensures
            match r {
                Some(s) => filter_msg(self.entries@, id) == Some(s@),
                None => filter_msg(self.entries@, id) is None,
            },
    {
        let n = self.entries.len();
        proof {
            assert(self.entries@.skip(0) =~= self.entries@);
        }
        for i in 0..n
            invariant
                n == self.entries@.len(),
                filter_msg(self.entries@, id) == filter_msg(self.entries@.skip(i as int), id),
        {
            proof {
                assert(self.entries@.skip(i as int).first() == self.entries@[i as int]);
                assert(self.entries@.skip(i as int).drop_first() =~= self.entries@.skip(i + 1));
            }
            if self.entries[i].0 == id {
                return Some(&self.entries[i].1);
            }
        }
        proof {
            assert(self.entries@.skip(n as int) =~= Seq::<(u32, String)>::empty());
        }
        None
    }

    /// Whether the filter keeps the ID.
    pub fn contains_id(&self, id: u32) -> (r: bool)
        ensures
            r == (filter_msg(self.entries@, id) is Some),
    {
        self.message_for(id).is_some()
    }
}

/// One raw event record, as the OS event log hands it out: the ID, the
/// event-type code, and seconds since the Unix epoch.
#[derive(Debug, Clone)]
pub struct RawEventRecord {
    pub event_id: u32,
    pub event_type: u16,
    pub time_generated: u32,
}

/// The level name of each event-type code.
pub open spec fn spec_event_level(t: u16) -> Seq<char> {
    if t == 1 {
        "Error"@
    } else if t == 2 {
        "Warning"@
    } else if t == 4 {
        "Information"@
    } else if t == 8 {
        "Audit Success"@
    } else if t == 16 {
        "Audit Failure"@
    } else {
        "Unknown"@
    }
}

/// Exec counterpart of [`spec_event_level`].
pub fn event_level_name(t: u16) -> (r: &'static str)
    ensures
        r@ == spec_event_level(t),
{
    if t == 1 {
        "Error"
    } else if t == 2 {
        "Warning"
    } else if t == 4 {
        "Information"
    } else if t == 8 {
        "Audit Success"
    } else if t == 16 {
        "Audit Failure"
    } else {
        "Unknown"
    }
}

/// The entry `e` renders record `rec` under `filter` for log `source`:
/// every field, the timestamp included, is a function of the record.
pub open spec fn event_entry_matches(
    filter: Seq<(u32, String)>,
    source: Seq<char>,
    rec: RawEventRecord,
    e: EventLogEntry,
) -> bool {
    &&& e.event_id == rec.event_id
    &&& e.level@ == spec_event_level(rec.event_type)
    &&& Some(e.message@) == filter_msg(filter, rec.event_id)
    &&& e.source@ == source
    &&& Some(e.timestamp@) == crate::wrappers::rfc3339_of_unix(rec.time_generated as int)
    &&& is_rfc3339(str_bytes(e.timestamp@))
}

/// The entry renders one of the given records.
pub open spec fn event_entry_from(
    filter: Seq<(u32, String)>,
    source: Seq<char>,
    records: Seq<RawEventRecord>,
    e: EventLogEntry,
) -> bool {
    exists|k: int|
        0 <= k < records.len() && event_entry_matches(filter, source, #[trigger] records[k], e)
}

/// How many of the records the filter keeps.
pub open spec fn spec_kept_count(filter: Seq<(u32, String)>, records: Seq<RawEventRecord>) -> int
    decreases records.len(),
{
    if records.len() == 0 {
        0
    } else {
        spec_kept_count(filter, records.drop_last()) + (if filter_msg(
            filter,
            records.last().event_id,
        ) is Some {
            1int
        } else {
            0int
        })
    }
}

/// Keeps exactly the records whose ID the filter lists, rendered as
/// entries and sorted newest-first by timestamp.  An empty filter yields
/// no entries.
#[verifier::rlimit(60)]
pub fn events_from_records(
    log_name: &str,
    filter: &EventFilter,
    records: &Vec<RawEventRecord>,
) -> (r: Vec<EventLogEntry>)
    ensures
        r@.len() == spec_kept_count(filter.entries@, records@),
        forall|i: int|
            0 <= i < r@.len() ==> event_entry_from(
                filter.entries@,
                log_name@,
                records@,
                #[trigger] r@[i],
            ),
        filter.entries@.len() == 0 ==> r@.len() == 0,
        r@.len() <= records@.len(),
        forall|i: int, j: int|
            0 <= i <= j < r@.len() ==> lex_le(
                str_bytes((#[trigger] r@[j]).timestamp@),
                str_bytes((#[trigger] r@[i]).timestamp@),
            ),
{
    let mut pairs: Vec<(Vec<u8>, EventLogEntry)> = Vec::new();
    let n = records.len();
    for i in 0..n
        invariant
            n == records@.len(),
            pairs@.len() <= i,
            pairs@.len() == spec_kept_count(filter.entries@, records@.take(i as int)),
            filter.entries@.len() == 0 ==> pairs@.len() == 0,
            forall|k: int|
                0 <= k < pairs@.len() ==> event_entry_from(
                    filter.entries@,
                    log_name@,
                    records@,
                    (#[trigger] pairs@[k]).1,
                ) && pairs@[k].0@ == str_bytes(pairs@[k].1.timestamp@),
    {
        proof {
            assert(records@.take(i + 1).drop_last() =~= records@.take(i as int));
            assert(records@.take(i + 1).last() == records@[i as int]);
        }
        let rec = &records[i];
        match filter.message_for(rec.event_id) {
            Some(msg) => {
                proof {
                    if filter.entries@.len() == 0 {
                        assert(filter_msg(filter.entries@, rec.event_id) is None);
                    }
                }
                let ts = match crate::wrappers::unix_secs_to_rfc3339(rec.time_generated as i64) {
                    Some(t) => t,
                    None => crate::wrappers::now_rfc3339(),
                };
                let e = EventLogEntry::new_with_source(
                    rec.event_id,
                    event_level_name(rec.event_type).to_owned(),
                    ts,
                    msg.clone(),
                    log_name.to_owned(),
                );
                let mut key: Vec<u8> = Vec::new();
                key.extend_from_slice(e.timestamp.as_str().as_bytes());
                let ghost ge = e;
                let ghost pre = pairs@;
                proof {
                    assert(event_entry_matches(
                        filter.entries@,
                        log_name@,
                        records@[i as int],
                        ge,
                    ));
                    assert(event_entry_from(filter.entries@, log_name@, records@, ge));
                }
                pairs.push((key, e));
                proof {
                    assert(pairs@.last().1 == ge);
                    assert forall|k: int| 0 <= k < pairs@.len() implies event_entry_from(
                        filter.entries@,
                        log_name@,
                        records@,
                        (#[trigger] pairs@[k]).1,
                    ) && pairs@[k].0@ == str_bytes(pairs@[k].1.timestamp@) by {
                        if k < pre.len() {
                            assert(pairs@[k] == pre[k]);
                        } else {
                            assert(pairs@[k] == pairs@.last());
                        }
                    }
                }
            },
            None => {},
        }
    }
    proof {
        assert(records@.take(n as int) =~= records@);
    }
    let ghost built = pairs@;
    let mut sorted = sort_keyed_desc(pairs);
    let ghost sorted_all = sorted@;
    proof {
        broadcast use vstd::seq_lib::group_to_multiset_ensures;

        assert(sorted_all.to_multiset().len() == sorted_all.len());
        assert(built.to_multiset().len() == built.len());
        assert forall|k: int| 0 <= k < sorted_all.len() implies event_entry_from(
            filter.entries@,
            log_name@,
            records@,
            (#[trigger] sorted_all[k]).1,
        ) && sorted_all[k].0@ == str_bytes(sorted_all[k].1.timestamp@) by {
            assert(sorted_all.to_multiset().contains(sorted_all[k]));
            assert(built.to_multiset().contains(sorted_all[k]));
            assert(built.contains(sorted_all[k]));
            let j = choose|j: int| 0 <= j < built.len() && built[j] == sorted_all[k];
            assert(event_entry_from(filter.entries@, log_name@, records@, built[j].1)
                && built[j].0@ == str_bytes(built[j].1.timestamp@));
        }
    }
    let mut out: Vec<EventLogEntry> = Vec::new();
    while sorted.len() > 0
        invariant
            out@.len() + sorted@.len() == sorted_all.len(),
            sorted@ == sorted_all.skip(out@.len() as int),
            keys_sorted_desc(sorted_all),
            forall|k: int|
                0 <= k < sorted_all.len() ==> event_entry_from(
                    filter.entries@,
                    log_name@,
                    records@,
                    (#[trigger] sorted_all[k]).1,
                ) && sorted_all[k].0@ == str_bytes(sorted_all[k].1.timestamp@),
            forall|k: int| 0 <= k < out@.len() ==> #[trigger] out@[k] == sorted_all[k].1,
        decreases sorted@.len(),
    {
        let (_, e) = sorted.remove(0);
        out.push(e);
        proof {
            assert(sorted@ =~= sorted_all.skip(out@.len() as int));
        }
    }
    proof {
        assert forall|i: int, j: int| 0 <= i <= j < out@.len() implies lex_le(
            str_bytes((#[trigger] out@[j]).timestamp@),
            str_bytes((#[trigger] out@[i]).timestamp@),
        ) by {
            assert(out@[i] == sorted_all[i].1 && out@[j] == sorted_all[j].1);
            assert(lex_le(sorted_all[j].0@, sorted_all[i].0@));
        }
        assert forall|i: int| 0 <= i < out@.len() implies event_entry_from(
            filter.entries@,
            log_name@,
            records@,
            #[trigger] out@[i],
        ) by {
            assert(out@[i] == sorted_all[i].1);
        }
    }
    out
}


/// Whether the view pairs list the ID.
pub open spec fn view_has_id(pairs: Seq<(u32, Seq<char>)>, id: u32) -> bool
    decreases pairs.len(),
{
    if pairs.len() == 0 {
        false
    } else if pairs.first().0 == id {
        true
    } else {
        view_has_id(pairs.drop_first(), id)
    }
}

/// How many of the records carry an ID the view pairs list.
pub open spec fn kept_count_by_view(pairs: Seq<(u32, Seq<char>)>, records: Seq<RawEventRecord>) -> int
    decreases records.len(),
{
    if records.len() == 0 {
        0
    } else {
        kept_count_by_view(pairs, records.drop_last()) + (if view_has_id(
            pairs,
            records.last().event_id,
        ) {
            1int
        } else {
            0int
        })
    }
}

/// A filter keeps an ID exactly when its view pairs list it.
pub proof fn lemma_filter_msg_view(entries: Seq<(u32, String)>, pairs: Seq<(u32, Seq<char>)>, id: u32)
    requires
        pairs.len() == entries.len(),
        forall|i: int| 0 <= i < entries.len() ==> (#[trigger] pairs[i]).0 == entries[i].0,
    ensures
        (filter_msg(entries, id) is Some) == view_has_id(pairs, id),
    decreases entries.len(),
{
    if entries.len() > 0 {
        assert(pairs[0].0 == entries[0].0);
        if entries.first().0 != id {
            assert forall|i: int| 0 <= i < entries.drop_first().len() implies (#[trigger] pairs.drop_first()[i]).0
                == entries.drop_first()[i].0 by {
                assert(pairs.drop_first()[i] == pairs[i + 1]);
                assert(entries.drop_first()[i] == entries[i + 1]);
            }
            lemma_filter_msg_view(entries.drop_first(), pairs.drop_first(), id);
        }
    }
}

/// The two kept-counts agree wherever the view matches the filter.
pub proof fn lemma_kept_count_view(
    entries: Seq<(u32, String)>,
    pairs: Seq<(u32, Seq<char>)>,
    records: Seq<RawEventRecord>,
)
    requires
        pairs.len() == entries.len(),
        forall|i: int| 0 <= i < entries.len() ==> (#[trigger] pairs[i]).0 == entries[i].0,
    ensures
        spec_kept_count(entries, records) == kept_count_by_view(pairs, records),
    decreases records.len(),
{
    if records.len() > 0 {
        lemma_kept_count_view(entries, pairs, records.drop_last());
        lemma_filter_msg_view(entries, pairs, records.last().event_id);
    }
}

/// The pairs a filter holds, at spec level.
pub open spec fn filter_view(f: EventFilter) -> Seq<(u32, Seq<char>)> {
    Seq::new(f.entries@.len() as nat, |i: int| (f.entries@[i].0, f.entries@[i].1@))
}

/// The curated Security-log filter: logon, account-management, privilege,
/// process and system events.
pub open spec fn sec_filter_entries() -> Seq<(u32, Seq<char>)> {
    seq![
        (4624u32, "An account was successfully logged on"@),
        (4625u32, "An account failed to log on"@),
        (4634u32, "An account was logged off"@),
        (4647u32, "User initiated logoff"@),
        (4648u32, "A logon was attempted using explicit credentials"@),
        (4720u32, "A user account was created"@),
        (4722u32, "A user account was enabled"@),
        (4723u32, "An attempt was made to change an account's password"@),
        (4724u32, "An attempt was made to reset an account's password"@),
        (4725u32, "A user account was disabled"@),
        (4726u32, "A user account was deleted"@),
        (4738u32, "A user account was changed"@),
        (4672u32, "Special privileges assigned to new logon"@),
        (4673u32, "A privileged service was called"@),
        (4674u32, "An operation was attempted on a privileged object"@),
        (4688u32, "A new process has been created"@),
        (4689u32, "A process has exited"@),
        (4656u32, "A handle to an object was requested"@),
        (4658u32, "The handle to an object was closed"@),
        (4608u32, "Windows is starting up"@),
        (4609u32, "Windows is shutting down"@),
        (4616u32, "The system time was changed"@),
    ]
}

/// Builds the curated Security-log filter.
pub fn get_security_event_filter() -> (r: EventFilter)
    ensures
        filter_view(r) == sec_filter_entries(),
{
    let mut entries: Vec<(u32, String)> = Vec::new();
    entries.push((4624, "An account was successfully logged on".to_owned()));
    entries.push((4625, "An account failed to log on".to_owned()));
    entries.push((4634, "An account was logged off".to_owned()));
    entries.push((4647, "User initiated logoff".to_owned()));
    entries.push((4648, "A logon was attempted using explicit credentials".to_owned()));
    entries.push((4720, "A user account was created".to_owned()));
    entries.push((4722, "A user account was enabled".to_owned()));
    entries.push((4723, "An attempt was made to change an account's password".to_owned()));
    entries.push((4724, "An attempt was made to reset an account's password".to_owned()));
    entries.push((4725, "A user account was disabled".to_owned()));
    entries.push((4726, "A user account was deleted".to_owned()));
    entries.push((4738, "A user account was changed".to_owned()));
    entries.push((4672, "Special privileges assigned to new logon".to_owned()));
    entries.push((4673, "A privileged service was called".to_owned()));
    entries.push((4674, "An operation was attempted on a privileged object".to_owned()));
    entries.push((4688, "A new process has been created".to_owned()));
    entries.push((4689, "A process has exited".to_owned()));
    entries.push((4656, "A handle to an object was requested".to_owned()));
    entries.push((4658, "The handle to an object was closed".to_owned()));
    entries.push((4608, "Windows is starting up".to_owned()));
    entries.push((4609, "Windows is shutting down".to_owned()));
    entries.push((4616, "The system time was changed".to_owned()));
    let r = EventFilter { entries };
    proof {
        assert(filter_view(r) =~= sec_filter_entries());
    }
    r
}

/// The curated System-log filter: service, startup and error events.
pub open spec fn sys_filter_entries() -> Seq<(u32, Seq<char>)> {
    seq![
        (6005u32, "The Event log service was started"@),
        (6006u32, "The Event log service was stopped"@),
        (6008u32, "The previous system shutdown was unexpected"@),
        (6009u32, "Microsoft Windows version information"@),
        (6013u32, "The system uptime"@),
        (7034u32, "A service terminated unexpectedly"@),
        (7035u32, "A service was successfully sent a start or stop control"@),
        (7036u32, "A service entered the running or stopped state"@),
        (7040u32, "The start type of a service was changed"@),
        (1001u32, "Windows Error Reporting"@),
        (1000u32, "Application Error"@),
        (1002u32, "Application Hang"@),
        (41u32, "The system has rebooted without cleanly shutting down first"@),
        (219u32, "Driver installation"@),
        (220u32, "Driver installation failure"@),
    ]
}

/// Builds the curated System-log filter.
pub fn get_system_event_filter() -> (r: EventFilter)
    ensures
        filter_view(r) == sys_filter_entries(),
{
    let mut entries: Vec<(u32, String)> = Vec::new();
    entries.push((6005, "The Event log service was started".to_owned()));
    entries.push((6006, "The Event log service was stopped".to_owned()));
    entries.push((6008, "The previous system shutdown was unexpected".to_owned()));
    entries.push((6009, "Microsoft Windows version information".to_owned()));
    entries.push((6013, "The system uptime".to_owned()));
    entries.push((7034, "A service terminated unexpectedly".to_owned()));
    entries.push((7035, "A service was successfully sent a start or stop control".to_owned()));
    entries.push((7036, "A service entered the running or stopped state".to_owned()));
    entries.push((7040, "The start type of a service was changed".to_owned()));
    entries.push((1001, "Windows Error Reporting".to_owned()));
    entries.push((1000, "Application Error".to_owned()));
    entries.push((1002, "Application Hang".to_owned()));
    entries.push((41, "The system has rebooted without cleanly shutting down first".to_owned()));
    entries.push((219, "Driver installation".to_owned()));
    entries.push((220, "Driver installation failure".to_owned()));
    let r = EventFilter { entries };
    proof {
        assert(filter_view(r) =~= sys_filter_entries());
    }
    r
}

/// The curated Application-log filter: crashes, runtime and installer
/// events.
pub open spec fn app_filter_entries() -> Seq<(u32, Seq<char>)> {
    seq![
        (1000u32, "Application Error"@),
        (1001u32, "Windows Error Reporting"@),
        (1002u32, "Application Hang"@),
        (1026u32, "Application popup"@),
        (1023u32, ".NET Runtime Error"@),
        (1033u32, "Windows Installer reconfigured a product"@),
        (1034u32, "Windows Installer removed a product"@),
        (11707u32, "Installation completed successfully"@),
        (11708u32, "Installation failed"@),
        (11724u32, "Package removal completed successfully"@),
        (2u32, "The application-specific permission settings do not grant Local Activation permission"@),
        (10016u32, "The application-specific permission settings do not grant Local Activation permission"@),
        (4625u32, "An account failed to log on"@),
        (4648u32, "A logon was attempted using explicit credentials"@),
    ]
}

/// Builds the curated Application-log filter.
pub fn get_application_event_filter() -> (r: EventFilter)
    ensures
        filter_view(r) == app_filter_entries(),
{
    let mut entries: Vec<(u32, String)> = Vec::new();
    entries.push((1000, "Application Error".to_owned()));
    entries.push((1001, "Windows Error Reporting".to_owned()));
    entries.push((1002, "Application Hang".to_owned()));
    entries.push((1026, "Application popup".to_owned()));
    entries.push((1023, ".NET Runtime Error".to_owned()));
    entries.push((1033, "Windows Installer reconfigured a product".to_owned()));
    entries.push((1034, "Windows Installer removed a product".to_owned()));
    entries.push((11707, "Installation completed successfully".to_owned()));
    entries.push((11708, "Installation failed".to_owned()));
    entries.push((11724, "Package removal completed successfully".to_owned()));
    entries.push(
        (
            2,
            "The application-specific permission settings do not grant Local Activation permission".to_owned(),
        ),
    );
    entries.push(
        (
            10016,
            "The application-specific permission settings do not grant Local Activation permission".to_owned(),
        ),
    );
    entries.push((4625, "An account failed to log on".to_owned()));
    entries.push((4648, "A logon was attempted using explicit credentials".to_owned()));
    let r = EventFilter { entries };
    proof {
        assert(filter_view(r) =~= app_filter_entries());
    }
    r
}

/// The messages the event-log collector logs: only logs that yielded
/// entries or failed appear between the start and completion lines, and
/// the total line appears only when anything was collected.
pub open spec fn event_log_msgs(
    sec: Result<int, Seq<char>>,
    sys: Result<int, Seq<char>>,
    app: Result<int, Seq<char>>,
    total: int,
) -> Seq<(Seq<char>, Seq<char>)> {
    seq![("INFO"@, "Starting event log collection"@)] + (match sec {
        Ok(n) => if n > 0 {
            seq![("INFO"@, "Collected "@ + dec_str(n as nat) + " Security log entries"@)]
        } else {
            Seq::empty()
        },
        Err(e) => seq![("WARN"@, "Failed to collect Security log entries: "@ + e)],
    }) + (match sys {
        Ok(n) => if n > 0 {
            seq![("INFO"@, "Collected "@ + dec_str(n as nat) + " System log entries"@)]
        } else {
            Seq::empty()
        },
        Err(e) => seq![("WARN"@, "Failed to collect System log entries: "@ + e)],
    }) + (match app {
        Ok(n) => if n > 0 {
            seq![
                ("INFO"@, "Collected "@ + dec_str(n as nat) + " Application log entries"@),
            ]
        } else {
            Seq::empty()
        },
        Err(e) => seq![("WARN"@, "Failed to collect Application log entries: "@ + e)],
    }) + (if total > 0 {
        seq![
            ("INFO"@, "Total event log entries collected: "@ + dec_str(total as nat)),
        ]
    } else {
        Seq::empty()
    }) + seq![("INFO"@, "Event log collection completed"@)]
}

/// Renders, filters and sorts the three logs' records, logging what each
/// log yielded.  With empty filters and no failures the collection log
/// holds exactly the start and completion lines.
#[verifier::rlimit(100)]
pub fn collect_event_logs(
    security: Result<Vec<RawEventRecord>, String>,
    system: Result<Vec<RawEventRecord>, String>,
    application: Result<Vec<RawEventRecord>, String>,
    sec_filter: &EventFilter,
    sys_filter: &EventFilter,
    app_filter: &EventFilter,
) -> (r: (EventLogs, Vec<LogEntry>))
    requires
        (match security {
            Ok(v) => v@.len(),
            Err(_) => 0,
        }) + (match system {
            Ok(v) => v@.len(),
            Err(_) => 0,
        }) + (match application {
            Ok(v) => v@.len(),
            Err(_) => 0,
        }) <= usize::MAX,
    ensures
        security matches Ok(v) ==> r.0.security@.len() <= v@.len(),
        security matches Err(_) ==> r.0.security@.len() == 0,
        system matches Ok(v) ==> r.0.system@.len() <= v@.len(),
        system matches Err(_) ==> r.0.system@.len() == 0,
        application matches Ok(v) ==> r.0.application@.len() <= v@.len(),
        application matches Err(_) ==> r.0.application@.len() == 0,
        sec_filter.entries@.len() == 0 ==> r.0.security@.len() == 0,
        sys_filter.entries@.len() == 0 ==> r.0.system@.len() == 0,
        app_filter.entries@.len() == 0 ==> r.0.application@.len() == 0,
        security matches Ok(v) ==> r.0.security@.len() == spec_kept_count(
            sec_filter.entries@,
            v@,
        ) && (forall|i: int|
            0 <= i < r.0.security@.len() ==> event_entry_from(
                sec_filter.entries@,
                "Security"@,
                v@,
                #[trigger] r.0.security@[i],
            )),
        system matches Ok(v) ==> r.0.system@.len() == spec_kept_count(sys_filter.entries@, v@) && (
        forall|i: int|
            0 <= i < r.0.system@.len() ==> event_entry_from(
                sys_filter.entries@,
                "System"@,
                v@,
                #[trigger] r.0.system@[i],
            )),
        application matches Ok(v) ==> r.0.application@.len() == spec_kept_count(
            app_filter.entries@,
            v@,
        ) && (forall|i: int|
            0 <= i < r.0.application@.len() ==> event_entry_from(
                app_filter.entries@,
                "Application"@,
                v@,
                #[trigger] r.0.application@[i],
            )),
        logs_match(
            r.1@,
            event_log_msgs(
                (match security {
                    Ok(_) => Ok(r.0.security@.len() as int),
                    Err(e) => Err(e@),
                }),
                (match system {
                    Ok(_) => Ok(r.0.system@.len() as int),
                    Err(e) => Err(e@),
                }),
                (match application {
                    Ok(_) => Ok(r.0.application@.len() as int),
                    Err(e) => Err(e@),
                }),
                r.0.security@.len() + r.0.system@.len() + r.0.application@.len() as int,
            ),
        ),
{
    let mut logs: Vec<LogEntry> = Vec::new();
    logs.push(LogEntry::info("Starting event log collection"));
    let mut event_logs = EventLogs::default();
    match &security {
        Ok(records) => {
            let entries = events_from_records("Security", sec_filter, records);
            let n = entries.len();
            event_logs.security = entries;
            if n > 0 {
                let mut m = "Collected ".to_owned();
                let num = u64_to_string(n as u64);
                m.append(num.as_str());
                m.append(" Security log entries");
                logs.push(LogEntry::info(m.as_str()));
            }
        },
        Err(e) => {
            let mut m = "Failed to collect Security log entries: ".to_owned();
            m.append(e.as_str());
            logs.push(LogEntry::warn(m.as_str()));
        },
    }
    match &system {
        Ok(records) => {
            let entries = events_from_records("System", sys_filter, records);
            let n = entries.len();
            event_logs.system = entries;
            if n > 0 {
                let mut m = "Collected ".to_owned();
                let num = u64_to_string(n as u64);
                m.append(num.as_str());
                m.append(" System log entries");
                logs.push(LogEntry::info(m.as_str()));
            }
        },
        Err(e) => {
            let mut m = "Failed to collect System log entries: ".to_owned();
            m.append(e.as_str());
            logs.push(LogEntry::warn(m.as_str()));
        },
    }
    match &application {
        Ok(records) => {
            let entries = events_from_records("Application", app_filter, records);
            let n = entries.len();
            event_logs.application = entries;
            if n > 0 {
                let mut m = "Collected ".to_owned();
                let num = u64_to_string(n as u64);
                m.append(num.as_str());
                m.append(" Application log entries");
                logs.push(LogEntry::info(m.as_str()));
            }
        },
        Err(e) => {
            let mut m = "Failed to collect Application log entries: ".to_owned();
            m.append(e.as_str());
            logs.push(LogEntry::warn(m.as_str()));
        },
    }
    let total = event_logs.security.len() + event_logs.system.len() + event_logs.application.len();
    if total > 0 {
        let mut m = "Total event log entries collected: ".to_owned();
        let num = u64_to_string(total as u64);
        m.append(num.as_str());
        logs.push(LogEntry::info(m.as_str()));
    }
    logs.push(LogEntry::info("Event log collection completed"));
    (event_logs, logs)
}

/// As [`collect_event_logs`], with each log truncated to at most
/// `max_entries` of its newest entries.
pub fn collect_event_logs_limited(
    security: Result<Vec<RawEventRecord>, String>,
    system: Result<Vec<RawEventRecord>, String>,
    application: Result<Vec<RawEventRecord>, String>,
    sec_filter: &EventFilter,
    sys_filter: &EventFilter,
    app_filter: &EventFilter,
    max_entries: usize,
) -> (r: (EventLogs, Vec<LogEntry>))
    requires
        (match security {
            Ok(v) => v@.len(),
            Err(_) => 0,
        }) + (match system {
            Ok(v) => v@.len(),
            Err(_) => 0,
        }) + (match application {
            Ok(v) => v@.len(),
            Err(_) => 0,
        }) <= usize::MAX,
    ensures
        r.0.security@.len() <= max_entries,
        r.0.system@.len() <= max_entries,
        r.0.application@.len() <= max_entries,
        security matches Ok(v) ==> r.0.security@.len() == vstd::math::min(
            max_entries as int,
            spec_kept_count(sec_filter.entries@, v@),
        ) && (forall|i: int|
            0 <= i < r.0.security@.len() ==> event_entry_from(
                sec_filter.entries@,
                "Security"@,
                v@,
                #[trigger] r.0.security@[i],
            )),
        system matches Ok(v) ==> r.0.system@.len() == vstd::math::min(
            max_entries as int,
            spec_kept_count(sys_filter.entries@, v@),
        ) && (forall|i: int|
            0 <= i < r.0.system@.len() ==> event_entry_from(
                sys_filter.entries@,
                "System"@,
                v@,
                #[trigger] r.0.system@[i],
            )),
        application matches Ok(v) ==> r.0.application@.len() == vstd::math::min(
            max_entries as int,
            spec_kept_count(app_filter.entries@, v@),
        ) && (forall|i: int|
            0 <= i < r.0.application@.len() ==> event_entry_from(
                app_filter.entries@,
                "Application"@,
                v@,
                #[trigger] r.0.application@[i],
            )),
{
    let (mut event_logs, logs) = collect_event_logs(
        security,
        system,
        application,
        sec_filter,
        sys_filter,
        app_filter,
    );
    event_logs.security.truncate(max_entries);
    event_logs.system.truncate(max_entries);
    event_logs.application.truncate(max_entries);
    (event_logs, logs)
}

/// The entries of `s` carrying event ID `id`, in order.
pub open spec fn events_with_id(s: Seq<EventLogEntry>, id: u32) -> Seq<EventLogEntry>
    decreases s.len(),
{
    if s.len() == 0 {
        Seq::empty()
    } else if s.last().event_id == id {
        events_with_id(s.drop_last(), id).push(s.last())
    } else {
        events_with_id(s.drop_last(), id)
    }
}

/// The entries carrying the given event ID, in order.
pub fn filter_events_by_id(events: &[EventLogEntry], event_id: u32) -> (r: Vec<EventLogEntry>)
    ensures
        r@ == events_with_id(events@, event_id),
{
    let mut out: Vec<EventLogEntry> = Vec::new();
    let n = events.len();
    for i in 0..n
        invariant
            n == events@.len(),
            out@ =~= events_with_id(events@.take(i as int), event_id),
    {
        proof {
            assert(events@.take(i + 1).drop_last() =~= events@.take(i as int));
            assert(events@.take(i + 1).last() == events@[i as int]);
        }
        if events[i].event_id == event_id {
            out.push(events[i].clone());
        }
        assert(out@ =~= events_with_id(events@.take(i + 1), event_id));
    }
    assert(events@.take(n as int) =~= events@);
    out
}

/// The entries of `s` carrying level `level`, in order.
pub open spec fn events_with_level(s: Seq<EventLogEntry>, level: Seq<char>) -> Seq<EventLogEntry>
    decreases s.len(),
{
    if s.len() == 0 {
        Seq::empty()
    } else if s.last().level@ == level {
        events_with_level(s.drop_last(), level).push(s.last())
    } else {
        events_with_level(s.drop_last(), level)
    }
}

/// The entries carrying the given level, in order.
pub fn filter_events_by_level(events: &[EventLogEntry], level: &str) -> (r: Vec<EventLogEntry>)
    ensures
        r@ == events_with_level(events@, level@),
{
    let mut out: Vec<EventLogEntry> = Vec::new();
    let n = events.len();
    for i in 0..n
        invariant
            n == events@.len(),
            out@ =~= events_with_level(events@.take(i as int), level@),
    {
        proof {
            assert(events@.take(i + 1).drop_last() =~= events@.take(i as int));
            assert(events@.take(i + 1).last() == events@[i as int]);
        }
        if eq_str(events[i].level.as_str(), level) {
            out.push(events[i].clone());
        }
        assert(out@ =~= events_with_level(events@.take(i + 1), level@));
    }
    assert(events@.take(n as int) =~= events@);
    out
}

/// The entries whose timestamp lies in `[start_time, end_time]`, by byte
/// order of the RFC 3339 strings, in order.
pub fn filter_events_by_time_range(events: &[EventLogEntry], start_time: &str, end_time: &str)
    -> (r: Vec<EventLogEntry>)
    ensures
        forall|i: int|
            0 <= i < r@.len() ==> lex_le(
                str_bytes(start_time@),
                str_bytes((#[trigger] r@[i]).timestamp@),
            ) && lex_le(str_bytes(r@[i].timestamp@), str_bytes(end_time@)),
{
    let mut out: Vec<EventLogEntry> = Vec::new();
    let n = events.len();
    for i in 0..n
        invariant
            n == events@.len(),
            forall|k: int|
                0 <= k < out@.len() ==> lex_le(
                    str_bytes(start_time@),
                    str_bytes((#[trigger] out@[k]).timestamp@),
                ) && lex_le(str_bytes(out@[k].timestamp@), str_bytes(end_time@)),
    {
        let ts = events[i].timestamp.as_str();
        if crate::sortutil::lex_le_bytes(start_time.as_bytes(), ts.as_bytes())
            && crate::sortutil::lex_le_bytes(ts.as_bytes(), end_time.as_bytes()) {
            out.push(events[i].clone());
        }
    }
    out
}

/// The newest `count` entries, sorted newest-first by timestamp.
pub fn get_recent_events(events: &[EventLogEntry], count: usize) -> (r: Vec<EventLogEntry>)
    ensures
        r@.len() == vstd::math::min(count as int, events@.len() as int),
        forall|i: int, j: int|
            0 <= i <= j < r@.len() ==> lex_le(
                str_bytes((#[trigger] r@[j]).timestamp@),
                str_bytes((#[trigger] r@[i]).timestamp@),
            ),
        forall|i: int|
            0 <= i < r@.len() ==> exists|j: int|
                0 <= j < events@.len() && #[trigger] r@[i] == events@[j],
        forall|j: int|
            0 <= j < events@.len() && r@.len() > 0 && !lex_le(
                str_bytes((#[trigger] events@[j]).timestamp@),
                str_bytes(r@[r@.len() - 1].timestamp@),
            ) ==> exists|i: int| 0 <= i < r@.len() && #[trigger] r@[i] == events@[j],
{
    let mut pairs: Vec<(Vec<u8>, EventLogEntry)> = Vec::new();
    let n = events.len();
    for i in 0..n
        invariant
            n == events@.len(),
            pairs@.len() == i,
            forall|k: int|
                0 <= k < pairs@.len() ==> (#[trigger] pairs@[k]).0@ == str_bytes(
                    pairs@[k].1.timestamp@,
                ),
            forall|k: int| 0 <= k < pairs@.len() ==> #[trigger] pairs@[k].1 == events@[k],
    {
        let e = events[i].clone();
        let mut key: Vec<u8> = Vec::new();
        key.extend_from_slice(e.timestamp.as_str().as_bytes());
        let ghost ge = e;
        let ghost pre = pairs@;
        pairs.push((key, e));
        proof {
            assert forall|k: int| 0 <= k < pairs@.len() implies (#[trigger] pairs@[k]).0@
                == str_bytes(pairs@[k].1.timestamp@) && pairs@[k].1 == events@[k] by {
                if k < pre.len() {
                    assert(pairs@[k] == pre[k]);
                } else {
                    assert(pairs@[k] == pairs@.last());
                }
            }
        }
    }
    let ghost built = pairs@;
    let mut sorted = sort_keyed_desc(pairs);
    let ghost sorted_all = sorted@;
    proof {
        broadcast use vstd::seq_lib::group_to_multiset_ensures;

        assert(sorted_all.to_multiset().len() == sorted_all.len());
        assert(built.to_multiset().len() == built.len());
        assert forall|k: int| 0 <= k < sorted_all.len() implies (#[trigger] sorted_all[k]).0@
            == str_bytes(sorted_all[k].1.timestamp@) by {
            assert(sorted_all.to_multiset().contains(sorted_all[k]));
            assert(built.to_multiset().contains(sorted_all[k]));
            assert(built.contains(sorted_all[k]));
            let j = choose|j: int| 0 <= j < built.len() && built[j] == sorted_all[k];
            assert(built[j].0@ == str_bytes(built[j].1.timestamp@));
        }
    }
    let mut out: Vec<EventLogEntry> = Vec::new();
    while sorted.len() > 0 && out.len() < count
        invariant
            out@.len() + sorted@.len() == sorted_all.len(),
            out@.len() <= count,
            sorted@ == sorted_all.skip(out@.len() as int),
            keys_sorted_desc(sorted_all),
            forall|k: int|
                0 <= k < sorted_all.len() ==> (#[trigger] sorted_all[k]).0@ == str_bytes(
                    sorted_all[k].1.timestamp@,
                ),
            forall|k: int| 0 <= k < out@.len() ==> #[trigger] out@[k] == sorted_all[k].1,
        decreases sorted@.len(),
    {
        let (_, e) = sorted.remove(0);
        out.push(e);
        proof {
            assert(sorted@ =~= sorted_all.skip(out@.len() as int));
        }
    }
    proof {
        assert forall|i: int, j: int| 0 <= i <= j < out@.len() implies lex_le(
            str_bytes((#[trigger] out@[j]).timestamp@),
            str_bytes((#[trigger] out@[i]).timestamp@),
        ) by {
            assert(out@[i] == sorted_all[i].1 && out@[j] == sorted_all[j].1);
            assert(lex_le(sorted_all[j].0@, sorted_all[i].0@));
        }
        broadcast use vstd::seq_lib::group_to_multiset_ensures;

        let m = out@.len() as int;
        assert(built.len() == n);
        assert forall|i: int| 0 <= i < m implies exists|j: int|
            0 <= j < events@.len() && #[trigger] out@[i] == events@[j] by {
            assert(out@[i] == sorted_all[i].1);
            assert(sorted_all.to_multiset().contains(sorted_all[i]));
            assert(built.to_multiset().contains(sorted_all[i]));
            assert(built.contains(sorted_all[i]));
            let j = choose|j: int| 0 <= j < built.len() && built[j] == sorted_all[i];
            assert(built[j].1 == events@[j]);
        }
        if m > 0 {
            assert forall|j: int|
                0 <= j < events@.len() && !lex_le(
                    str_bytes((#[trigger] events@[j]).timestamp@),
                    str_bytes(out@[m - 1].timestamp@),
                ) implies exists|i: int| 0 <= i < m && #[trigger] out@[i] == events@[j] by {
                assert(built.to_multiset().contains(built[j]));
                assert(sorted_all.to_multiset().contains(built[j]));
                assert(sorted_all.contains(built[j]));
                let p = choose|p: int| 0 <= p < sorted_all.len() && sorted_all[p] == built[j];
                assert(sorted_all[p].0@ == str_bytes(events@[j].timestamp@));
                if p >= m {
                    assert(lex_le(sorted_all[p].0@, sorted_all[m - 1].0@));
                    assert(out@[m - 1] == sorted_all[m - 1].1);
                    assert(false);
                }
                assert(out@[p] == sorted_all[p].1);
            }
        }
    }
    out
}

/// The logon-related Security events: IDs 4624, 4625, 4634, 4647 and
/// 4648, in order.
pub fn find_logon_events(security_events: &[EventLogEntry]) -> (r: Vec<EventLogEntry>)
    ensures
        forall|i: int|
            0 <= i < r@.len() ==> ((#[trigger] r@[i]).event_id == 4624 || r@[i].event_id == 4625
                || r@[i].event_id == 4634 || r@[i].event_id == 4647 || r@[i].event_id == 4648),
{
    let mut out: Vec<EventLogEntry> = Vec::new();
    let n = security_events.len();
    for i in 0..n
        invariant
            n == security_events@.len(),
            forall|k: int|
                0 <= k < out@.len() ==> ((#[trigger] out@[k]).event_id == 4624 || out@[k].event_id
                    == 4625 || out@[k].event_id == 4634 || out@[k].event_id == 4647
                    || out@[k].event_id == 4648),
    {
        let id = security_events[i].event_id;
        if id == 4624 || id == 4625 || id == 4634 || id == 4647 || id == 4648 {
            out.push(security_events[i].clone());
        }
    }
    out
}

/// The process-related Security events: IDs 4688 and 4689, in order.
pub fn find_process_events(security_events: &[EventLogEntry]) -> (r: Vec<EventLogEntry>)
    ensures
        forall|i: int|
            0 <= i < r@.len() ==> ((#[trigger] r@[i]).event_id == 4688 || r@[i].event_id == 4689),
{
    let mut out: Vec<EventLogEntry> = Vec::new();
    let n = security_events.len();
    for i in 0..n
        invariant
            n == security_events@.len(),
            forall|k: int|
                0 <= k < out@.len() ==> ((#[trigger] out@[k]).event_id == 4688 || out@[k].event_id
                    == 4689),
    {
        let id = security_events[i].event_id;
        if id == 4688 || id == 4689 {
            out.push(security_events[i].clone());
        }
    }
    out
}


} // verus!
