//! The structured collection logger: a bounded in-memory queue of
//! [`LogEntry`] values with per-level counters, plus the message-template
//! helper.

use vstd::prelude::*;
use vstd::string::StringExecFns;
use std::collections::VecDeque;
use crate::types::{LogEntry, LogLevel, log_entry_wf, spec_log_level_str};
use crate::wrappers::{push_char, stderr_line};

verus! {

/// The queue keeps at most this many entries; the oldest fall out first.
pub const LOG_CAP: usize = 10000;

/// Collects every log entry of a scan, keeping the most recent
/// [`LOG_CAP`] of them.
#[derive(Debug)]
pub struct Logger {
    pub entries: VecDeque<LogEntry>,
    /// Mirror each entry to standard error as it is appended.
    pub verbose: bool,
    pub max_entries: usize,
}

/// Summary of log entries by level.
#[derive(Debug, Clone)]
pub struct LogSummary {
    pub total_count: usize,
    pub info_count: usize,
    pub warn_count: usize,
    pub error_count: usize,
    pub other_count: usize,
}

/// The entries of `s` whose level reads `lvl`, in order.
pub open spec fn entries_with_level(s: Seq<LogEntry>, lvl: Seq<char>) -> Seq<LogEntry>
    decreases s.len(),
{
    if s.len() == 0 {
        Seq::empty()
    } else if s.last().level@ == lvl {
        entries_with_level(s.drop_last(), lvl).push(s.last())
    } else {
        entries_with_level(s.drop_last(), lvl)
    }
}

/// How many entries of `s` carry level `lvl`.
pub open spec fn count_level(s: Seq<LogEntry>, lvl: Seq<char>) -> int {
    entries_with_level(s, lvl).len() as int
}

/// No level is carried by more entries than there are.
pub proof fn lemma_count_level_le(s: Seq<LogEntry>, lvl: Seq<char>)
    ensures
        0 <= count_level(s, lvl) <= s.len(),
    decreases s.len(),
{
    if s.len() > 0 {
        lemma_count_level_le(s.drop_last(), lvl);
    }
}

impl Logger {
    /// The logger's invariant: the cap is [`LOG_CAP`], the queue respects
    /// it, and every entry is well-formed.
    pub open spec fn wf(&self) -> bool {
        &&& self.max_entries == LOG_CAP
        &&& self.entries@.len() <= LOG_CAP
        &&& forall|i: int| 0 <= i < self.entries@.len() ==> log_entry_wf(#[trigger] self.entries@[i])
    }

    /// An empty logger.
    pub fn new(verbose: bool) -> (r: Logger)
        ensures
            r.wf(),
            r.entries@.len() == 0,
            r.verbose == verbose,
    {
        Logger { entries: VecDeque::new(), verbose, max_entries: LOG_CAP }
    }

    /// Appends an entry with the given level and the current timestamp,
    /// dropping the oldest entry when the queue is full.  In verbose mode
    /// the line is mirrored to standard error.
    pub fn log(&mut self, level: LogLevel, message: &str)
        requires
            old(self).wf(),
        ensures
            final(self).wf(),
            final(self).verbose == old(self).verbose,
            ({
                let dropped: int = if old(self).entries@.len() >= LOG_CAP {
                    1
                } else {
                    0
                };
                let n = final(self).entries@.len();
                &&& n == old(self).entries@.len() + 1 - dropped
                &&& final(self).entries@.take(n - 1) == old(self).entries@.skip(dropped)
                &&& final(self).entries@[n - 1].level@ == spec_log_level_str(level)
                &&& final(self).entries@[n - 1].message@ == message@
                &&& log_entry_wf(final(self).entries@[n - 1])
            }),
    {
        let entry = LogEntry::new(level.as_str(), message);
        proof {
            assert(log_entry_wf(entry)) by {
                match level {
                    LogLevel::Info => {},
                    LogLevel::Warn => {},
                    LogLevel::Error => {},
                }
            }
        }
        if self.verbose {
            let mut line = String::new();
            line.append("[");
            line.append(entry.timestamp.as_str());
            line.append("] ");
            line.append(entry.level.as_str());
            line.append(": ");
            line.append(entry.message.as_str());
            stderr_line(line.as_str());
        }
        if self.entries.len() >= self.max_entries {
            let _ = self.entries.pop_front();
        }
        self.entries.push_back(entry);
        proof {
            let n = self.entries@.len();
            assert(self.entries@.take(n - 1) =~= old(self).entries@.skip(
                if old(self).entries@.len() >= LOG_CAP {
                    1int
                } else {
                    0int
                },
            ));
        }
    }

    /// Appends an `INFO` entry.
    pub fn info(&mut self, message: &str)
        requires
            old(self).wf(),
        ensures
            final(self).wf(),
            final(self).verbose == old(self).verbose,
            ({
                let dropped: int = if old(self).entries@.len() >= LOG_CAP {
                    1
                } else {
                    0
                };
                let n = final(self).entries@.len();
                &&& n == old(self).entries@.len() + 1 - dropped
                &&& final(self).entries@.take(n - 1) == old(self).entries@.skip(dropped)
                &&& final(self).entries@[n - 1].level@ == "INFO"@
                &&& final(self).entries@[n - 1].message@ == message@
                &&& log_entry_wf(final(self).entries@[n - 1])
            }),
    {
        self.log(LogLevel::Info, message)
    }

    /// Appends a `WARN` entry.
    pub fn warn(&mut self, message: &str)
        requires
            old(self).wf(),
        ensures
            final(self).wf(),
            final(self).verbose == old(self).verbose,
            ({
                let dropped: int = if old(self).entries@.len() >= LOG_CAP {
                    1
                } else {
                    0
                };
                let n = final(self).entries@.len();
                &&& n == old(self).entries@.len() + 1 - dropped
                &&& final(self).entries@.take(n - 1) == old(self).entries@.skip(dropped)
                &&& final(self).entries@[n - 1].level@ == "WARN"@
                &&& final(self).entries@[n - 1].message@ == message@
                &&& log_entry_wf(final(self).entries@[n - 1])
            }),
    {
        self.log(LogLevel::Warn, message)
    }

    /// Appends an `ERROR` entry.
    pub fn error(&mut self, message: &str)
        requires
            old(self).wf(),
        ensures
            final(self).wf(),
            final(self).verbose == old(self).verbose,
            ({
                let dropped: int = if old(self).entries@.len() >= LOG_CAP {
                    1
                } else {
                    0
                };
                let n = final(self).entries@.len();
                &&& n == old(self).entries@.len() + 1 - dropped
                &&& final(self).entries@.take(n - 1) == old(self).entries@.skip(dropped)
                &&& final(self).entries@[n - 1].level@ == "ERROR"@
                &&& final(self).entries@[n - 1].message@ == message@
                &&& log_entry_wf(final(self).entries@[n - 1])
            }),
    {
        self.log(LogLevel::Error, message)
    }

    /// Appends an entry whose message has `{0}`, `{1}`, … placeholders
    /// replaced by `args`.
    pub fn log_fmt(&mut self, level: LogLevel, format: &str, args: &[String])
        requires
            old(self).wf(),
        ensures
            final(self).wf(),
            final(self).verbose == old(self).verbose,
            ({
                let dropped: int = if old(self).entries@.len() >= LOG_CAP {
                    1
                } else {
                    0
                };
                let n = final(self).entries@.len();
                &&& n == old(self).entries@.len() + 1 - dropped
                &&& final(self).entries@.take(n - 1) == old(self).entries@.skip(dropped)
                &&& final(self).entries@[n - 1].level@ == spec_log_level_str(level)
                &&& final(self).entries@[n - 1].message@ == fmt_msg(format@, args.deep_view())
            }),
    {
        let message = format_message(format, args);
        self.log(level, message.as_str())
    }

    /// A snapshot of the log, in insertion order.
    pub fn get_entries(&self) -> (r: Vec<LogEntry>)
        ensures
            r@ == self.entries@,
    {
        let mut out: Vec<LogEntry> = Vec::new();
        let n = self.entries.len();
        for i in 0..n
            invariant
                n == self.entries@.len(),
                out@ =~= self.entries@.take(i as int),
        {
            out.push(self.entries[i].clone());
            assert(out@ =~= self.entries@.take(i + 1));
        }
        assert(self.entries@.take(n as int) =~= self.entries@);
        out
    }

    /// The entries carrying the given level, in insertion order.
    pub fn get_entries_by_level(&self, level: LogLevel) -> (r: Vec<LogEntry>)
        ensures
            r@ == entries_with_level(self.entries@, spec_log_level_str(level)),
    {
        let lvl = level.as_str();
        let mut out: Vec<LogEntry> = Vec::new();
        let n = self.entries.len();
        for i in 0..n
            invariant
                n == self.entries@.len(),
                lvl@ == spec_log_level_str(level),
                out@ =~= entries_with_level(self.entries@.take(i as int), lvl@),
        {
            proof {
                assert(self.entries@.take(i + 1).drop_last() =~= self.entries@.take(i as int));
            }
            if crate::types::eq_str(self.entries[i].level.as_str(), lvl) {
                out.push(self.entries[i].clone());
            }
            assert(out@ =~= entries_with_level(self.entries@.take(i + 1), lvl@));
        }
        assert(self.entries@.take(n as int) =~= self.entries@);
        out
    }

    /// How many entries carry the given level.
    pub fn get_count_by_level(&self, level: LogLevel) -> (r: usize)
        ensures
            r == count_level(self.entries@, spec_log_level_str(level)),
    {
        let v = self.get_entries_by_level(level);
        v.len()
    }

    /// Empties the log.
    pub fn clear(&mut self)
        ensures
            old(self).wf() ==> final(self).wf(),
            final(self).entries@.len() == 0,
            final(self).verbose == old(self).verbose,
            final(self).max_entries == old(self).max_entries,
    {
        self.entries.clear()
    }

    /// Counts the entries by level.
    #[verifier::loop_isolation(false)]
    pub fn get_summary(&self) -> (r: LogSummary)
        ensures
            r.total_count == self.entries@.len(),
            r.info_count == count_level(self.entries@, "INFO"@),
            r.warn_count == count_level(self.entries@, "WARN"@),
            r.error_count == count_level(self.entries@, "ERROR"@),
            r.info_count + r.warn_count + r.error_count + r.other_count == r.total_count,
    {
        proof {
            reveal_strlit("INFO");
            reveal_strlit("WARN");
            reveal_strlit("ERROR");
            assert("INFO"@ =~= seq!['I', 'N', 'F', 'O']);
            assert("WARN"@ =~= seq!['W', 'A', 'R', 'N']);
            assert("ERROR"@ =~= seq!['E', 'R', 'R', 'O', 'R']);
            assert("INFO"@ != "WARN"@);
            assert("INFO"@ != "ERROR"@);
            assert("WARN"@ != "ERROR"@);
        }
        let n = self.entries.len();
        let mut info_count: usize = 0;
        let mut warn_count: usize = 0;
        let mut error_count: usize = 0;
        let mut other_count: usize = 0;
        for i in 0..n
            invariant
                n == self.entries@.len(),
                info_count == count_level(self.entries@.take(i as int), "INFO"@),
                warn_count == count_level(self.entries@.take(i as int), "WARN"@),
                error_count == count_level(self.entries@.take(i as int), "ERROR"@),
                info_count + warn_count + error_count + other_count == i,
        {
            proof {
                assert(self.entries@.take(i + 1).drop_last() =~= self.entries@.take(i as int));
                assert(self.entries@.take(i + 1).last() == self.entries@[i as int]);
            }
            let lv = self.entries[i].level.as_str();
            if crate::types::eq_str(lv, "INFO") {
                info_count = info_count + 1;
            } else if crate::types::eq_str(lv, "WARN") {
                warn_count = warn_count + 1;
            } else if crate::types::eq_str(lv, "ERROR") {
                error_count = error_count + 1;
            } else {
                other_count = other_count + 1;
            }
        }
        assert(self.entries@.take(n as int) =~= self.entries@);
        LogSummary { total_count: n, info_count, warn_count, error_count, other_count }
    }

    /// The log holds at least one `ERROR` entry.
    pub fn has_errors(&self) -> (r: bool)
        ensures
            r == (count_level(self.entries@, "ERROR"@) > 0),
    {
        self.get_count_by_level(LogLevel::Error) > 0
    }

    /// The log holds at least one `WARN` entry.
    pub fn has_warnings(&self) -> (r: bool)
        ensures
            r == (count_level(self.entries@, "WARN"@) > 0),
    {
        self.get_count_by_level(LogLevel::Warn) > 0
    }
}

impl LogSummary {
    /// At least one error was logged.
    pub fn has_errors(&self) -> (r: bool)
        ensures
            r == (self.error_count > 0),
    {
        self.error_count > 0
    }

    /// At least one warning was logged.
    pub fn has_warnings(&self) -> (r: bool)
        ensures
            r == (self.warn_count > 0),
    {
        self.warn_count > 0
    }

    /// The percentage of non-error entries, in whole percent; 100 for an
    /// empty log.
    pub fn success_rate(&self) -> (r: u64)
        requires
            self.error_count <= self.total_count,
        ensures
            r == spec_success_rate(self.total_count as int, self.error_count as int),
    {
        if self.total_count == 0 {
            100
        } else {
            proof {
                let t = self.total_count as int;
                let e = self.error_count as int;
                assert(0 <= (t - e) * 100 / t <= 100) by (nonlinear_arith)
                    requires
                        0 < t,
                        0 <= e <= t,
                ;
            }
            let num = (self.total_count - self.error_count) as u128 * 100;
            (num / self.total_count as u128) as u64
        }
    }
}

/// `100 * (total - errors) / total`, and 100 for an empty log.
pub open spec fn spec_success_rate(total: int, errors: int) -> int {
    if total == 0 {
        100
    } else {
        (total - errors) * 100 / total
    }
}

/// A placeholder `{d}` with `d` a digit below `args.len()` stands at `i`.
pub open spec fn ph_at(s: Seq<char>, args: Seq<Seq<char>>, i: int) -> bool {
    &&& i + 3 <= s.len()
    &&& s[i] == '{'
    &&& crate::strutil::is_digit_char(s[i + 1])
    &&& s[i + 2] == '}'
    &&& crate::strutil::char_digit_val(s[i + 1]) < args.len()
}

/// The template `s` from position `i` on, with placeholders replaced.
pub open spec fn fmt_from(s: Seq<char>, args: Seq<Seq<char>>, i: int) -> Seq<char>
    decreases s.len() - i,
{
    if i < 0 || i >= s.len() {
        Seq::empty()
    } else if ph_at(s, args, i) {
        args[crate::strutil::char_digit_val(s[i + 1])] + fmt_from(s, args, i + 3)
    } else {
        seq![s[i]] + fmt_from(s, args, i + 1)
    }
}

/// The template `s` with each `{0}`, `{1}`, … replaced by the matching
/// argument; out-of-range placeholders stay as they are.
pub open spec fn fmt_msg(s: Seq<char>, args: Seq<Seq<char>>) -> Seq<char> {
    fmt_from(s, args, 0)
}

/// Replaces `{0}`, `{1}`, … in `format` by the matching argument.
pub fn format_message(format: &str, args: &[String]) -> (r: String)
    ensures
        r@ == fmt_msg(format@, args.deep_view()),
{
    let cs = crate::strutil::str_chars(format);
    let n = cs.len();
    let mut out = String::new();
    let mut i: usize = 0;
    while i < n
        invariant
            n == cs@.len(),
            cs@ == format@,
            i <= n,
            out@ + fmt_from(format@, args.deep_view(), i as int) == fmt_msg(
                format@,
                args.deep_view(),
            ),
        decreases n - i,
    {
        let c = cs[i];
        let mut replaced = false;
        if n - i > 2 && c == '{' {
            let d = cs[i + 1];
            if crate::strutil::digit_char_test(d) && cs[i + 2] == '}' {
                let dv = (d as u32 - 0x30) as usize;
                if dv < args.len() {
                    proof {
                        assert(ph_at(format@, args.deep_view(), i as int));
                        assert(args.deep_view()[dv as int] == args@[dv as int]@);
                    }
                    out.append(args[dv].as_str());
                    proof {
                        assert(out@ + fmt_from(format@, args.deep_view(), i + 3) =~= fmt_msg(
                            format@,
                            args.deep_view(),
                        ));
                    }
                    i = i + 3;
                    replaced = true;
                }
            }
        }
        if !replaced {
            proof {
                assert(!ph_at(format@, args.deep_view(), i as int));
            }
            push_char(&mut out, c);
            assert(out@ + fmt_from(format@, args.deep_view(), i + 1) =~= fmt_msg(
                format@,
                args.deep_view(),
            ));
            i = i + 1;
        }
    }
    proof {
        assert(out@ + fmt_from(format@, args.deep_view(), n as int) =~= out@);
    }
    out
}

} // verus!
