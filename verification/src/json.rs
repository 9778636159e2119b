//! The canonical JSON encoding of the report: pretty-printed with
//! two-space indentation, members in schema order, every string escaped.
//! The encoder builds the exact byte sequence its specification
//! describes.

use vstd::prelude::*;
use crate::types::{
    ScanResults, ScanMetadata, CollectionSummary, Artifacts, ExecutionEvidence, SystemInfo,
    LoggedOnUser, ProcessModule, Process, NetworkConnection, PersistenceMechanism, EventLogs,
    EventLogEntry, LogEntry, spec_is_external,
};
use crate::forensic_types::{PrefetchFile, VolumeInfo, ShimcacheEntry};
use crate::strutil::{str_bytes, contains_seq_ci};
use crate::wellformed::hex_char;

verus! {

/// `k` spaces.
pub open spec fn sp(k: nat) -> Seq<u8> {
    Seq::new(k, |i: int| 0x20u8)
}

/// The escape of one byte inside a JSON string: quote, backslash and the
/// common control characters by name, other control bytes as `\u00XX`,
/// everything else as itself.
pub open spec fn esc_byte(b: u8) -> Seq<u8> {
    if b == 0x22 {
        seq![0x5cu8, 0x22u8]
    } else if b == 0x5c {
        seq![0x5cu8, 0x5cu8]
    } else if b == 0x0a {
        seq![0x5cu8, 0x6eu8]
    } else if b == 0x0d {
        seq![0x5cu8, 0x72u8]
    } else if b == 0x09 {
        seq![0x5cu8, 0x74u8]
    } else if b < 0x20 {
        seq![0x5cu8, 0x75u8, 0x30u8, 0x30u8, hex_char(b / 16) as u8, hex_char(b % 16) as u8]
    } else {
        seq![b]
    }
}

/// The escaped bytes of a string body.
pub open spec fn esc_bytes(s: Seq<u8>) -> Seq<u8>
    decreases s.len(),
{
    if s.len() == 0 {
        Seq::empty()
    } else {
        esc_byte(s.first()) + esc_bytes(s.drop_first())
    }
}

/// A JSON string: quoted, escaped text.
pub open spec fn json_string(s: Seq<u8>) -> Seq<u8> {
    seq![0x22u8] + esc_bytes(s) + seq![0x22u8]
}

/// The decimal digits of `n`, as bytes.
pub open spec fn dec_bytes(n: nat) -> Seq<u8>
    decreases n,
{
    if n < 10 {
        seq![(0x30 + n) as u8]
    } else {
        dec_bytes(n / 10) + seq![(0x30 + n % 10) as u8]
    }
}

/// `true` or `false`.
pub open spec fn json_bool(b: bool) -> Seq<u8> {
    if b {
        seq![0x74u8, 0x72u8, 0x75u8, 0x65u8]
    } else {
        seq![0x66u8, 0x61u8, 0x6cu8, 0x73u8, 0x65u8]
    }
}

/// Fully-rendered items joined as lines: each indented, all but the last
/// followed by a comma.
pub open spec fn join_items(items: Seq<Seq<u8>>, ind: nat) -> Seq<u8>
    decreases items.len(),
{
    if items.len() == 0 {
        Seq::empty()
    } else if items.len() == 1 {
        sp(ind) + items.first()
    } else {
        sp(ind) + items.first() + seq![0x2cu8, 0x0au8] + join_items(items.drop_first(), ind)
    }
}

/// A JSON array over fully-rendered items: `[]` when empty, otherwise one
/// item per line.
pub open spec fn json_array(items: Seq<Seq<u8>>, ind: nat) -> Seq<u8> {
    if items.len() == 0 {
        seq![0x5bu8, 0x5du8]
    } else {
        seq![0x5bu8, 0x0au8] + join_items(items, ind + 2) + seq![0x0au8] + sp(ind) + seq![0x5du8]
    }
}

/// A JSON object over fully-rendered members: `{}` when empty, otherwise
/// one member per line.
pub open spec fn json_object(members: Seq<Seq<u8>>, ind: nat) -> Seq<u8> {
    if members.len() == 0 {
        seq![0x7bu8, 0x7du8]
    } else {
        seq![0x7bu8, 0x0au8] + join_items(members, ind + 2) + seq![0x0au8] + sp(ind) + seq![0x7du8]
    }
}

/// One rendered object member: quoted key, colon, value.
pub open spec fn member(key: Seq<u8>, val: Seq<u8>) -> Seq<u8> {
    json_string(key) + seq![0x3au8, 0x20u8] + val
}

/// Each element rendered by `f`, in order.
pub open spec fn rendered_list<T>(s: Seq<T>, f: spec_fn(T) -> Seq<u8>) -> Seq<Seq<u8>>
    decreases s.len(),
{
    if s.len() == 0 {
        Seq::empty()
    } else {
        rendered_list(s.drop_last(), f).push(f(s.last()))
    }
}

/// Builds `k` spaces.
fn make_spaces(k: usize) -> (r: Vec<u8>)
    ensures
        r@ == sp(k as nat),
{
    let mut out: Vec<u8> = Vec::new();
    for i in 0..k
        invariant
            out@ =~= sp(i as nat),
    {
        out.push(0x20);
        assert(out@ =~= sp((i + 1) as nat));
    }
    out
}

/// Renders a string value.
fn render_string(s: &str) -> (r: Vec<u8>)
    ensures
        r@ == json_string(str_bytes(s@)),
{
    let b = s.as_bytes();
    let n = b.len();
    let mut out: Vec<u8> = Vec::new();
    out.push(0x22);
    for i in 0..n
        invariant
            n == b@.len(),
            out@ =~= seq![0x22u8] + esc_bytes(b@.take(i as int)),
    {
        proof {
            lemma_esc_snoc(b@, i as int);
        }
        let c = b[i];
        if c == 0x22 {
            out.push(0x5c);
            out.push(0x22);
        } else if c == 0x5c {
            out.push(0x5c);
            out.push(0x5c);
        } else if c == 0x0a {
            out.push(0x5c);
            out.push(0x6e);
        } else if c == 0x0d {
            out.push(0x5c);
            out.push(0x72);
        } else if c == 0x09 {
            out.push(0x5c);
            out.push(0x74);
        } else if c < 0x20 {
            out.push(0x5c);
            out.push(0x75);
            out.push(0x30);
            out.push(0x30);
            out.push(hex_digit_byte(c / 16));
            out.push(hex_digit_byte(c % 16));
        } else {
            out.push(c);
        }
        assert(out@ =~= seq![0x22u8] + esc_bytes(b@.take(i + 1)));
    }
    out.push(0x22);
    proof {
        assert(b@.take(n as int) =~= b@);
        assert(out@ =~= json_string(str_bytes(s@)));
    }
    out
}

/// Escaping one more byte appends that byte's escape.
proof fn lemma_esc_snoc(s: Seq<u8>, i: int)
    requires
        0 <= i < s.len(),
    ensures
        esc_bytes(s.take(i + 1)) == esc_bytes(s.take(i)) + esc_byte(s[i]),
    decreases i,
{
    if i == 0 {
        assert(s.take(1).drop_first() =~= Seq::<u8>::empty());
        assert(s.take(1).first() == s[0]);
        assert(esc_bytes(Seq::<u8>::empty()) =~= Seq::<u8>::empty());
        assert(esc_bytes(s.take(1)) =~= esc_byte(s[0]) + esc_bytes(Seq::<u8>::empty()));
        assert(esc_bytes(s.take(1)) =~= esc_byte(s[0]));
        assert(esc_bytes(s.take(0)) =~= Seq::<u8>::empty());
        assert(esc_bytes(s.take(0)) + esc_byte(s[0]) =~= esc_byte(s[0]));
    } else {
        lemma_esc_snoc(s.drop_first(), i - 1);
        assert(s.take(i + 1).drop_first() =~= s.drop_first().take(i));
        assert(s.take(i).drop_first() =~= s.drop_first().take(i - 1));
        assert(esc_bytes(s.take(i + 1)) =~= esc_byte(s[0]) + esc_bytes(s.drop_first().take(i)));
        assert(esc_bytes(s.take(i)) =~= esc_byte(s[0]) + esc_bytes(s.drop_first().take(i - 1)));
        assert(esc_bytes(s.take(i + 1)) =~= esc_bytes(s.take(i)) + esc_byte(s[i]));
    }
}

/// The byte of one lower-hex digit.
fn hex_digit_byte(d: u8) -> (r: u8)
    requires
        d < 16,
    ensures
        r == hex_char(d) as u8,
{
    if d < 10 {
        0x30 + d
    } else {
        proof {
            assert(('a' as u8) == 0x61);
        }
        0x61 + (d - 10)
    }
}

/// Renders a number.
fn render_u64(n: u64) -> (r: Vec<u8>)
    ensures
        r@ == dec_bytes(n as nat),
    decreases n,
{
    if n < 10 {
        let mut out: Vec<u8> = Vec::new();
        out.push(0x30 + (n as u8));
        proof {
            assert(out@ =~= dec_bytes(n as nat));
        }
        out
    } else {
        let mut out = render_u64(n / 10);
        out.push(0x30 + ((n % 10) as u8));
        proof {
            assert(out@ =~= dec_bytes(n as nat));
        }
        out
    }
}

/// Renders a boolean.
fn render_bool(b: bool) -> (r: Vec<u8>)
    ensures
        r@ == json_bool(b),
{
    let mut out: Vec<u8> = Vec::new();
    if b {
        out.push(0x74);
        out.push(0x72);
        out.push(0x75);
        out.push(0x65);
    } else {
        out.push(0x66);
        out.push(0x61);
        out.push(0x6c);
        out.push(0x73);
        out.push(0x65);
    }
    proof {
        assert(out@ =~= json_bool(b));
    }
    out
}

/// Renders one object member from its key and rendered value.
fn render_member(key: &str, val: Vec<u8>) -> (r: Vec<u8>)
    ensures
        r@ == member(str_bytes(key@), val@),
{
    let mut out = render_string(key);
    out.push(0x3a);
    out.push(0x20);
    let mut v = val;
    out.append(&mut v);
    proof {
        assert(out@ =~= member(str_bytes(key@), val@));
    }
    out
}

/// Joins rendered items from position `i` on.
fn render_join_from(items: &Vec<Vec<u8>>, i: usize, ind: usize) -> (r: Vec<u8>)
    requires
        i <= items@.len(),
    ensures
        r@ == join_items(items.deep_view().skip(i as int), ind as nat),
    decreases items@.len() - i,
{
    let n = items.len();
    if i >= n {
        proof {
            assert(items.deep_view().skip(i as int) =~= Seq::<Seq<u8>>::empty());
        }
        Vec::new()
    } else {
        let mut out = make_spaces(ind);
        let mut item = clone_bytes(&items[i]);
        out.append(&mut item);
        proof {
            assert(items.deep_view().skip(i as int).first() == items.deep_view()[i as int]);
            assert(items.deep_view()[i as int] == items@[i as int]@);
        }
        if i + 1 < n {
            out.push(0x2c);
            out.push(0x0a);
            let mut tail = render_join_from(items, i + 1, ind);
            out.append(&mut tail);
            proof {
                assert(items.deep_view().skip(i as int).drop_first() =~= items.deep_view().skip(
                    i + 1,
                ));
                assert(items.deep_view().skip(i as int).len() > 1);
                assert(out@ =~= join_items(items.deep_view().skip(i as int), ind as nat));
            }
        } else {
            proof {
                assert(items.deep_view().skip(i as int).len() == 1);
                assert(out@ =~= join_items(items.deep_view().skip(i as int), ind as nat));
            }
        }
        out
    }
}

/// An equal byte vector.
fn clone_bytes(v: &Vec<u8>) -> (r: Vec<u8>)
    ensures
        r@ == v@,
{
    let mut out: Vec<u8> = Vec::new();
    out.extend_from_slice(v.as_slice());
    proof {
        assert(out@ =~= v@);
    }
    out
}

/// Renders a JSON array from rendered items.
fn render_array(items: Vec<Vec<u8>>, ind: usize) -> (r: Vec<u8>)
    requires
        ind + 2 <= usize::MAX,
    ensures
        r@ == json_array(items.deep_view(), ind as nat),
{
    if items.len() == 0 {
        let mut out: Vec<u8> = Vec::new();
        out.push(0x5b);
        out.push(0x5d);
        proof {
            assert(out@ =~= json_array(items.deep_view(), ind as nat));
        }
        out
    } else {
        let mut out: Vec<u8> = Vec::new();
        out.push(0x5b);
        out.push(0x0a);
        let mut body = render_join_from(&items, 0, ind + 2);
        out.append(&mut body);
        out.push(0x0a);
        let mut spaces = make_spaces(ind);
        out.append(&mut spaces);
        out.push(0x5d);
        proof {
            assert(items.deep_view().skip(0) =~= items.deep_view());
            assert(out@ =~= json_array(items.deep_view(), ind as nat));
        }
        out
    }
}

/// Renders a JSON object from rendered members.
fn render_object(members: Vec<Vec<u8>>, ind: usize) -> (r: Vec<u8>)
    requires
        ind + 2 <= usize::MAX,
    ensures
        r@ == json_object(members.deep_view(), ind as nat),
{
    if members.len() == 0 {
        let mut out: Vec<u8> = Vec::new();
        out.push(0x7b);
        out.push(0x7d);
        proof {
            assert(out@ =~= json_object(members.deep_view(), ind as nat));
        }
        out
    } else {
        let mut out: Vec<u8> = Vec::new();
        out.push(0x7b);
        out.push(0x0a);
        let mut body = render_join_from(&members, 0, ind + 2);
        out.append(&mut body);
        out.push(0x0a);
        let mut spaces = make_spaces(ind);
        out.append(&mut spaces);
        out.push(0x7d);
        proof {
            assert(members.deep_view().skip(0) =~= members.deep_view());
            assert(out@ =~= json_object(members.deep_view(), ind as nat));
        }
        out
    }
}

/// Shorthand: the JSON string of a text value.
pub open spec fn jstr(s: Seq<char>) -> Seq<u8> {
    json_string(str_bytes(s))
}

/// The encoding of one collection-log entry.
pub open spec fn json_log_entry(e: LogEntry, ind: nat) -> Seq<u8> {
    json_object(
        seq![
            member(str_bytes("timestamp"@), jstr(e.timestamp@)),
            member(str_bytes("level"@), jstr(e.level@)),
            member(str_bytes("message"@), jstr(e.message@)),
        ],
        ind,
    )
}

/// Renders one collection-log entry.
pub fn render_log_entry(e: &LogEntry, ind: usize) -> (r: Vec<u8>)
    requires
        ind <= 40,
    ensures
        r@ == json_log_entry(*e, ind as nat),
{
    let mut members: Vec<Vec<u8>> = Vec::new();
    members.push(render_member("timestamp", render_string(e.timestamp.as_str())));
    members.push(render_member("level", render_string(e.level.as_str())));
    members.push(render_member("message", render_string(e.message.as_str())));
    proof {
        assert(members.deep_view() =~~= seq![
            member(str_bytes("timestamp"@), jstr(e.timestamp@)),
            member(str_bytes("level"@), jstr(e.level@)),
            member(str_bytes("message"@), jstr(e.message@)),
        ]);
    }
    let r = render_object(members, ind);
    r
}


/// The encoding of a logged-on user.
pub open spec fn json_user(u: LoggedOnUser, ind: nat) -> Seq<u8> {
    json_object(
        seq![
            member(str_bytes("username"@), jstr(u.username@)),
            member(str_bytes("domain"@), jstr(u.domain@)),
            member(str_bytes("logon_time"@), jstr(u.logon_time@)),
        ],
        ind,
    )
}

fn render_user(u: &LoggedOnUser, ind: usize) -> (r: Vec<u8>)
    requires
        ind <= 40,
    ensures
        r@ == json_user(*u, ind as nat),
{
    let mut members: Vec<Vec<u8>> = Vec::new();
    members.push(render_member("username", render_string(u.username.as_str())));
    members.push(render_member("domain", render_string(u.domain.as_str())));
    members.push(render_member("logon_time", render_string(u.logon_time.as_str())));
    proof {
        assert(members.deep_view() =~~= seq![
            member(str_bytes("username"@), jstr(u.username@)),
            member(str_bytes("domain"@), jstr(u.domain@)),
            member(str_bytes("logon_time"@), jstr(u.logon_time@)),
        ]);
    }
    render_object(members, ind)
}

/// The encoding of the system-information record.
pub open spec fn json_system_info(s: SystemInfo, ind: nat) -> Seq<u8> {
    json_object(
        seq![
            member(str_bytes("uptime_secs"@), dec_bytes(s.uptime_secs as nat)),
            member(
                str_bytes("logged_on_users"@),
                json_array(
                    rendered_list(s.logged_on_users@, |u: LoggedOnUser| json_user(u, ind + 4)),
                    ind + 2,
                ),
            ),
        ],
        ind,
    )
}

#[verifier::rlimit(80)]
fn render_system_info(s: &SystemInfo, ind: usize) -> (r: Vec<u8>)
    requires
        ind <= 36,
    ensures
        r@ == json_system_info(*s, ind as nat),
{
    let mut users: Vec<Vec<u8>> = Vec::new();
    let n = s.logged_on_users.len();
    for i in 0..n
        invariant
            n == s.logged_on_users@.len(),
            ind <= 36,
            users.deep_view() =~~= rendered_list(s.logged_on_users@.take(i as int),
                |u: LoggedOnUser| json_user(u, (ind + 4) as nat),
            ),
    {
        users.push(render_user(&s.logged_on_users[i], ind + 4));
        proof {
            assert(s.logged_on_users@.take(i + 1).drop_last() =~= s.logged_on_users@.take(i as int));
            assert(s.logged_on_users@.take(i + 1).last() == s.logged_on_users@[i as int]);
            assert(users.deep_view() =~~= rendered_list(s.logged_on_users@.take(i + 1),
                |u: LoggedOnUser| json_user(u, (ind + 4) as nat),
            ));
        }
    }
    proof {
        assert(s.logged_on_users@.take(n as int) =~= s.logged_on_users@);
    }
    let users_json = render_array(users, ind + 2);
    let mut members: Vec<Vec<u8>> = Vec::new();
    members.push(render_member("uptime_secs", render_u64(s.uptime_secs)));
    members.push(render_member("logged_on_users", users_json));
    proof {
        assert(members.deep_view() =~~= seq![
            member(str_bytes("uptime_secs"@), dec_bytes(s.uptime_secs as nat)),
            member(
                str_bytes("logged_on_users"@),
                json_array(
                    rendered_list(s.logged_on_users@, 
                        |u: LoggedOnUser| json_user(u, (ind + 4) as nat),
                    ),
                    (ind + 2) as nat,
                ),
            ),
        ]);
    }
    render_object(members, ind)
}

/// The encoding of a loaded module, with its derived system-module flag.
pub open spec fn json_module(m: ProcessModule, ind: nat) -> Seq<u8> {
    json_object(
        seq![
            member(str_bytes("name"@), jstr(m.name@)),
            member(str_bytes("file_path"@), jstr(m.file_path@)),
            member(str_bytes("base_address"@), jstr(m.base_address@)),
            member(str_bytes("size"@), dec_bytes(m.size as nat)),
            member(str_bytes("version"@), jstr(m.version@)),
            member(
                str_bytes("is_system_module"@),
                json_bool(
                    contains_seq_ci(str_bytes(m.file_path@), str_bytes("\\windows\\system32\\"@))
                        || contains_seq_ci(
                        str_bytes(m.file_path@),
                        str_bytes("\\windows\\syswow64\\"@),
                    ) || contains_seq_ci(
                        str_bytes(m.file_path@),
                        str_bytes("\\windows\\winsxs\\"@),
                    ),
                ),
            ),
        ],
        ind,
    )
}

#[verifier::rlimit(80)]
fn render_module(m: &ProcessModule, ind: usize) -> (r: Vec<u8>)
    requires
        ind <= 40,
    ensures
        r@ == json_module(*m, ind as nat),
{
    let mut members: Vec<Vec<u8>> = Vec::new();
    members.push(render_member("name", render_string(m.name.as_str())));
    members.push(render_member("file_path", render_string(m.file_path.as_str())));
    members.push(render_member("base_address", render_string(m.base_address.as_str())));
    members.push(render_member("size", render_u64(m.size as u64)));
    members.push(render_member("version", render_string(m.version.as_str())));
    members.push(render_member("is_system_module", render_bool(m.is_system_module())));
    proof {
        assert(members.deep_view() =~~= seq![
            member(str_bytes("name"@), jstr(m.name@)),
            member(str_bytes("file_path"@), jstr(m.file_path@)),
            member(str_bytes("base_address"@), jstr(m.base_address@)),
            member(str_bytes("size"@), dec_bytes(m.size as nat)),
            member(str_bytes("version"@), jstr(m.version@)),
            member(
                str_bytes("is_system_module"@),
                json_bool(
                    contains_seq_ci(str_bytes(m.file_path@), str_bytes("\\windows\\system32\\"@))
                        || contains_seq_ci(
                        str_bytes(m.file_path@),
                        str_bytes("\\windows\\syswow64\\"@),
                    ) || contains_seq_ci(
                        str_bytes(m.file_path@),
                        str_bytes("\\windows\\winsxs\\"@),
                    ),
                ),
            ),
        ]);
    }
    render_object(members, ind)
}

/// The encoding of a process record; memory is reported in KiB.
pub open spec fn json_process(p: Process, ind: nat) -> Seq<u8> {
    json_object(
        seq![
            member(str_bytes("pid"@), dec_bytes(p.pid as nat)),
            member(str_bytes("parent_pid"@), dec_bytes(p.parent_pid as nat)),
            member(str_bytes("name"@), jstr(p.name@)),
            member(str_bytes("command_line"@), jstr(p.command_line@)),
            member(str_bytes("executable_path"@), jstr(p.executable_path@)),
            member(str_bytes("sha256_hash"@), jstr(p.sha256_hash@)),
            member(str_bytes("user"@), jstr(p.user@)),
            member(
                str_bytes("memory_usage_mb"@),
                dec_bytes((p.memory_usage_kb / 1024) as nat),
            ),
            member(
                str_bytes("loaded_modules"@),
                json_array(
                    rendered_list(p.loaded_modules@, |m: ProcessModule| json_module(m, ind + 4)),
                    ind + 2,
                ),
            ),
        ],
        ind,
    )
}

#[verifier::rlimit(80)]
fn render_process(p: &Process, ind: usize) -> (r: Vec<u8>)
    requires
        ind <= 36,
    ensures
        r@ == json_process(*p, ind as nat),
{
    let mut modules: Vec<Vec<u8>> = Vec::new();
    let n = p.loaded_modules.len();
    for i in 0..n
        invariant
            n == p.loaded_modules@.len(),
            ind <= 36,
            modules.deep_view() =~~= rendered_list(p.loaded_modules@.take(i as int),
                |m: ProcessModule| json_module(m, (ind + 4) as nat),
            ),
    {
        modules.push(render_module(&p.loaded_modules[i], ind + 4));
        proof {
            assert(p.loaded_modules@.take(i + 1).drop_last() =~= p.loaded_modules@.take(i as int));
            assert(p.loaded_modules@.take(i + 1).last() == p.loaded_modules@[i as int]);
            assert(modules.deep_view() =~~= rendered_list(p.loaded_modules@.take(i + 1),
                |m: ProcessModule| json_module(m, (ind + 4) as nat),
            ));
        }
    }
    proof {
        assert(p.loaded_modules@.take(n as int) =~= p.loaded_modules@);
    }
    let modules_json = render_array(modules, ind + 2);
    let mut members: Vec<Vec<u8>> = Vec::new();
    members.push(render_member("pid", render_u64(p.pid as u64)));
    members.push(render_member("parent_pid", render_u64(p.parent_pid as u64)));
    members.push(render_member("name", render_string(p.name.as_str())));
    members.push(render_member("command_line", render_string(p.command_line.as_str())));
    members.push(render_member("executable_path", render_string(p.executable_path.as_str())));
    members.push(render_member("sha256_hash", render_string(p.sha256_hash.as_str())));
    members.push(render_member("user", render_string(p.user.as_str())));
    members.push(render_member("memory_usage_mb", render_u64(p.memory_usage_kb / 1024)));
    members.push(render_member("loaded_modules", modules_json));
    proof {
        assert(members.deep_view() =~~= seq![
            member(str_bytes("pid"@), dec_bytes(p.pid as nat)),
            member(str_bytes("parent_pid"@), dec_bytes(p.parent_pid as nat)),
            member(str_bytes("name"@), jstr(p.name@)),
            member(str_bytes("command_line"@), jstr(p.command_line@)),
            member(str_bytes("executable_path"@), jstr(p.executable_path@)),
            member(str_bytes("sha256_hash"@), jstr(p.sha256_hash@)),
            member(str_bytes("user"@), jstr(p.user@)),
            member(
                str_bytes("memory_usage_mb"@),
                dec_bytes((p.memory_usage_kb / 1024) as nat),
            ),
            member(
                str_bytes("loaded_modules"@),
                json_array(
                    rendered_list(p.loaded_modules@, 
                        |m: ProcessModule| json_module(m, (ind + 4) as nat),
                    ),
                    (ind + 2) as nat,
                ),
            ),
        ]);
    }
    render_object(members, ind)
}

/// The encoding of a network connection, with its derived external flag.
pub open spec fn json_connection(c: NetworkConnection, ind: nat) -> Seq<u8> {
    json_object(
        seq![
            member(str_bytes("protocol"@), jstr(c.protocol@)),
            member(str_bytes("local_address"@), jstr(c.local_address@)),
            member(str_bytes("local_port"@), dec_bytes(c.local_port as nat)),
            member(str_bytes("remote_address"@), jstr(c.remote_address@)),
            member(str_bytes("remote_port"@), dec_bytes(c.remote_port as nat)),
            member(str_bytes("state"@), jstr(c.state@)),
            member(str_bytes("owning_pid"@), dec_bytes(c.owning_pid as nat)),
            member(str_bytes("process_name"@), jstr(c.process_name@)),
            member(str_bytes("is_external"@), json_bool(spec_is_external(c.remote_address@))),
        ],
        ind,
    )
}

#[verifier::rlimit(80)]
fn render_connection(c: &NetworkConnection, ind: usize) -> (r: Vec<u8>)
    requires
        ind <= 40,
    ensures
        r@ == json_connection(*c, ind as nat),
{
    let mut members: Vec<Vec<u8>> = Vec::new();
    members.push(render_member("protocol", render_string(c.protocol.as_str())));
    members.push(render_member("local_address", render_string(c.local_address.as_str())));
    members.push(render_member("local_port", render_u64(c.local_port as u64)));
    members.push(render_member("remote_address", render_string(c.remote_address.as_str())));
    members.push(render_member("remote_port", render_u64(c.remote_port as u64)));
    members.push(render_member("state", render_string(c.state.as_str())));
    members.push(render_member("owning_pid", render_u64(c.owning_pid as u64)));
    members.push(render_member("process_name", render_string(c.process_name.as_str())));
    members.push(render_member("is_external", render_bool(c.is_external())));
    proof {
        assert(members.deep_view() =~~= seq![
            member(str_bytes("protocol"@), jstr(c.protocol@)),
            member(str_bytes("local_address"@), jstr(c.local_address@)),
            member(str_bytes("local_port"@), dec_bytes(c.local_port as nat)),
            member(str_bytes("remote_address"@), jstr(c.remote_address@)),
            member(str_bytes("remote_port"@), dec_bytes(c.remote_port as nat)),
            member(str_bytes("state"@), jstr(c.state@)),
            member(str_bytes("owning_pid"@), dec_bytes(c.owning_pid as nat)),
            member(str_bytes("process_name"@), jstr(c.process_name@)),
            member(str_bytes("is_external"@), json_bool(spec_is_external(c.remote_address@))),
        ]);
    }
    render_object(members, ind)
}

/// The encoding of a persistence mechanism; its category is keyed `type`.
pub open spec fn json_mechanism(m: PersistenceMechanism, ind: nat) -> Seq<u8> {
    json_object(
        seq![
            member(str_bytes("type"@), jstr(m.mechanism_type@)),
            member(str_bytes("name"@), jstr(m.name@)),
            member(str_bytes("command"@), jstr(m.command@)),
            member(str_bytes("source"@), jstr(m.source@)),
            member(str_bytes("location"@), jstr(m.location@)),
            member(str_bytes("value"@), jstr(m.value@)),
            member(str_bytes("is_suspicious"@), json_bool(m.is_suspicious)),
        ],
        ind,
    )
}

#[verifier::rlimit(80)]
fn render_mechanism(m: &PersistenceMechanism, ind: usize) -> (r: Vec<u8>)
    requires
        ind <= 40,
    ensures
        r@ == json_mechanism(*m, ind as nat),
{
    let mut members: Vec<Vec<u8>> = Vec::new();
    members.push(render_member("type", render_string(m.mechanism_type.as_str())));
    members.push(render_member("name", render_string(m.name.as_str())));
    members.push(render_member("command", render_string(m.command.as_str())));
    members.push(render_member("source", render_string(m.source.as_str())));
    members.push(render_member("location", render_string(m.location.as_str())));
    members.push(render_member("value", render_string(m.value.as_str())));
    members.push(render_member("is_suspicious", render_bool(m.is_suspicious)));
    proof {
        assert(members.deep_view() =~~= seq![
            member(str_bytes("type"@), jstr(m.mechanism_type@)),
            member(str_bytes("name"@), jstr(m.name@)),
            member(str_bytes("command"@), jstr(m.command@)),
            member(str_bytes("source"@), jstr(m.source@)),
            member(str_bytes("location"@), jstr(m.location@)),
            member(str_bytes("value"@), jstr(m.value@)),
            member(str_bytes("is_suspicious"@), json_bool(m.is_suspicious)),
        ]);
    }
    render_object(members, ind)
}

/// The encoding of an event-log entry.
pub open spec fn json_event(e: EventLogEntry, ind: nat) -> Seq<u8> {
    json_object(
        seq![
            member(str_bytes("event_id"@), dec_bytes(e.event_id as nat)),
            member(str_bytes("level"@), jstr(e.level@)),
            member(str_bytes("timestamp"@), jstr(e.timestamp@)),
            member(str_bytes("message"@), jstr(e.message@)),
            member(str_bytes("source"@), jstr(e.source@)),
        ],
        ind,
    )
}

fn render_event(e: &EventLogEntry, ind: usize) -> (r: Vec<u8>)
    requires
        ind <= 40,
    ensures
        r@ == json_event(*e, ind as nat),
{
    let mut members: Vec<Vec<u8>> = Vec::new();
    members.push(render_member("event_id", render_u64(e.event_id as u64)));
    members.push(render_member("level", render_string(e.level.as_str())));
    members.push(render_member("timestamp", render_string(e.timestamp.as_str())));
    members.push(render_member("message", render_string(e.message.as_str())));
    members.push(render_member("source", render_string(e.source.as_str())));
    proof {
        assert(members.deep_view() =~~= seq![
            member(str_bytes("event_id"@), dec_bytes(e.event_id as nat)),
            member(str_bytes("level"@), jstr(e.level@)),
            member(str_bytes("timestamp"@), jstr(e.timestamp@)),
            member(str_bytes("message"@), jstr(e.message@)),
            member(str_bytes("source"@), jstr(e.source@)),
        ]);
    }
    render_object(members, ind)
}

/// One rendered event list.
#[verifier::rlimit(80)]
fn render_event_list(events: &Vec<EventLogEntry>, ind: usize) -> (r: Vec<u8>)
    requires
        ind <= 36,
    ensures
        r@ == json_array(
            rendered_list(events@, |e: EventLogEntry| json_event(e, (ind + 2) as nat)),
            ind as nat,
        ),
{
    let mut items: Vec<Vec<u8>> = Vec::new();
    let n = events.len();
    for i in 0..n
        invariant
            n == events@.len(),
            ind <= 36,
            items.deep_view() =~~= rendered_list(events@.take(i as int),
                |e: EventLogEntry| json_event(e, (ind + 2) as nat),
            ),
    {
        items.push(render_event(&events[i], ind + 2));
        proof {
            assert(events@.take(i + 1).drop_last() =~= events@.take(i as int));
            assert(events@.take(i + 1).last() == events@[i as int]);
            assert(items.deep_view() =~~= rendered_list(events@.take(i + 1),
                |e: EventLogEntry| json_event(e, (ind + 2) as nat),
            ));
        }
    }
    proof {
        assert(events@.take(n as int) =~= events@);
    }
    render_array(items, ind)
}

/// The encoding of the three event logs.
pub open spec fn json_event_logs(l: EventLogs, ind: nat) -> Seq<u8> {
    json_object(
        seq![
            member(
                str_bytes("security"@),
                json_array(
                    rendered_list(l.security@, |e: EventLogEntry| json_event(e, ind + 4)),
                    ind + 2,
                ),
            ),
            member(
                str_bytes("system"@),
                json_array(
                    rendered_list(l.system@, |e: EventLogEntry| json_event(e, ind + 4)),
                    ind + 2,
                ),
            ),
            member(
                str_bytes("application"@),
                json_array(
                    rendered_list(l.application@, |e: EventLogEntry| json_event(e, ind + 4)),
                    ind + 2,
                ),
            ),
        ],
        ind,
    )
}

#[verifier::rlimit(80)]
fn render_event_logs(l: &EventLogs, ind: usize) -> (r: Vec<u8>)
    requires
        ind <= 32,
    ensures
        r@ == json_event_logs(*l, ind as nat),
{
    let mut members: Vec<Vec<u8>> = Vec::new();
    members.push(render_member("security", render_event_list(&l.security, ind + 2)));
    members.push(render_member("system", render_event_list(&l.system, ind + 2)));
    members.push(render_member("application", render_event_list(&l.application, ind + 2)));
    proof {
        assert(members.deep_view() =~~= seq![
            member(
                str_bytes("security"@),
                json_array(
                    rendered_list(l.security@, |e: EventLogEntry| json_event(e, ((ind + 2) + 2) as nat)),
                    (ind + 2) as nat,
                ),
            ),
            member(
                str_bytes("system"@),
                json_array(
                    rendered_list(l.system@, |e: EventLogEntry| json_event(e, ((ind + 2) + 2) as nat)),
                    (ind + 2) as nat,
                ),
            ),
            member(
                str_bytes("application"@),
                json_array(
                    rendered_list(l.application@, 
                        |e: EventLogEntry| json_event(e, ((ind + 2) + 2) as nat),
                    ),
                    (ind + 2) as nat,
                ),
            ),
        ]);
        assert(members.deep_view() =~~= seq![
            member(
                str_bytes("security"@),
                json_array(
                    rendered_list(l.security@, |e: EventLogEntry| json_event(e, (ind as nat) + 4)),
                    (ind as nat) + 2,
                ),
            ),
            member(
                str_bytes("system"@),
                json_array(
                    rendered_list(l.system@, |e: EventLogEntry| json_event(e, (ind as nat) + 4)),
                    (ind as nat) + 2,
                ),
            ),
            member(
                str_bytes("application"@),
                json_array(
                    rendered_list(l.application@, |e: EventLogEntry| json_event(e, (ind as nat) + 4)),
                    (ind as nat) + 2,
                ),
            ),
        ]);
    }
    render_object(members, ind)
}

/// The encoding of volume information.
pub open spec fn json_volume(v: VolumeInfo, ind: nat) -> Seq<u8> {
    json_object(
        seq![
            member(str_bytes("device_path"@), jstr(v.device_path@)),
            member(str_bytes("volume_name"@), jstr(v.volume_name@)),
            member(str_bytes("serial_number"@), jstr(v.serial_number@)),
            member(str_bytes("creation_time"@), jstr(v.creation_time@)),
        ],
        ind,
    )
}

fn render_volume(v: &VolumeInfo, ind: usize) -> (r: Vec<u8>)
    requires
        ind <= 40,
    ensures
        r@ == json_volume(*v, ind as nat),
{
    let mut members: Vec<Vec<u8>> = Vec::new();
    members.push(render_member("device_path", render_string(v.device_path.as_str())));
    members.push(render_member("volume_name", render_string(v.volume_name.as_str())));
    members.push(render_member("serial_number", render_string(v.serial_number.as_str())));
    members.push(render_member("creation_time", render_string(v.creation_time.as_str())));
    proof {
        assert(members.deep_view() =~~= seq![
            member(str_bytes("device_path"@), jstr(v.device_path@)),
            member(str_bytes("volume_name"@), jstr(v.volume_name@)),
            member(str_bytes("serial_number"@), jstr(v.serial_number@)),
            member(str_bytes("creation_time"@), jstr(v.creation_time@)),
        ]);
    }
    render_object(members, ind)
}

/// The encoding of a prefetch file.
pub open spec fn json_prefetch(p: PrefetchFile, ind: nat) -> Seq<u8> {
    json_object(
        seq![
            member(str_bytes("filename"@), jstr(p.filename@)),
            member(str_bytes("executable_name"@), jstr(p.executable_name@)),
            member(str_bytes("run_count"@), dec_bytes(p.run_count as nat)),
            member(str_bytes("last_run_time"@), jstr(p.last_run_time@)),
            member(str_bytes("creation_time"@), jstr(p.creation_time@)),
            member(str_bytes("file_size"@), dec_bytes(p.file_size as nat)),
            member(str_bytes("hash"@), jstr(p.hash@)),
            member(str_bytes("version"@), dec_bytes(p.version as nat)),
            member(
                str_bytes("referenced_files"@),
                json_array(rendered_list(p.referenced_files.deep_view(), |f: Seq<char>| jstr(f)), ind + 2),
            ),
            member(
                str_bytes("volumes"@),
                json_array(rendered_list(p.volumes@, |v: VolumeInfo| json_volume(v, ind + 4)), ind + 2),
            ),
        ],
        ind,
    )
}

#[verifier::rlimit(80)]
fn render_prefetch(p: &PrefetchFile, ind: usize) -> (r: Vec<u8>)
    requires
        ind <= 36,
    ensures
        r@ == json_prefetch(*p, ind as nat),
{
    let mut refs: Vec<Vec<u8>> = Vec::new();
    let nr = p.referenced_files.len();
    for i in 0..nr
        invariant
            nr == p.referenced_files@.len(),
            refs.deep_view() =~~= rendered_list(p.referenced_files.deep_view().take(i as int),
                |f: Seq<char>| jstr(f),
            ),
    {
        refs.push(render_string(p.referenced_files[i].as_str()));
        proof {
            assert(p.referenced_files.deep_view().take(i + 1).drop_last() =~= p.referenced_files.deep_view().take(i as int));
            assert(p.referenced_files.deep_view().take(i + 1).last() == p.referenced_files.deep_view()[i as int]);
            assert(refs.deep_view() =~~= rendered_list(p.referenced_files.deep_view().take(i + 1),
                |f: Seq<char>| jstr(f),
            ));
        }
    }
    proof {
        assert(p.referenced_files.deep_view().take(nr as int) =~= p.referenced_files.deep_view());
    }
    let refs_json = render_array(refs, ind + 2);
    let mut vols: Vec<Vec<u8>> = Vec::new();
    let nv = p.volumes.len();
    for i in 0..nv
        invariant
            nv == p.volumes@.len(),
            ind <= 36,
            vols.deep_view() =~~= rendered_list(p.volumes@.take(i as int),
                |v: VolumeInfo| json_volume(v, (ind + 4) as nat),
            ),
    {
        vols.push(render_volume(&p.volumes[i], ind + 4));
        proof {
            assert(p.volumes@.take(i + 1).drop_last() =~= p.volumes@.take(i as int));
            assert(p.volumes@.take(i + 1).last() == p.volumes@[i as int]);
            assert(vols.deep_view() =~~= rendered_list(p.volumes@.take(i + 1),
                |v: VolumeInfo| json_volume(v, (ind + 4) as nat),
            ));
        }
    }
    proof {
        assert(p.volumes@.take(nv as int) =~= p.volumes@);
    }
    let vols_json = render_array(vols, ind + 2);
    let mut members: Vec<Vec<u8>> = Vec::new();
    members.push(render_member("filename", render_string(p.filename.as_str())));
    members.push(render_member("executable_name", render_string(p.executable_name.as_str())));
    members.push(render_member("run_count", render_u64(p.run_count as u64)));
    members.push(render_member("last_run_time", render_string(p.last_run_time.as_str())));
    members.push(render_member("creation_time", render_string(p.creation_time.as_str())));
    members.push(render_member("file_size", render_u64(p.file_size)));
    members.push(render_member("hash", render_string(p.hash.as_str())));
    members.push(render_member("version", render_u64(p.version as u64)));
    members.push(render_member("referenced_files", refs_json));
    members.push(render_member("volumes", vols_json));
    proof {
        assert(members.deep_view() =~~= seq![
            member(str_bytes("filename"@), jstr(p.filename@)),
            member(str_bytes("executable_name"@), jstr(p.executable_name@)),
            member(str_bytes("run_count"@), dec_bytes(p.run_count as nat)),
            member(str_bytes("last_run_time"@), jstr(p.last_run_time@)),
            member(str_bytes("creation_time"@), jstr(p.creation_time@)),
            member(str_bytes("file_size"@), dec_bytes(p.file_size as nat)),
            member(str_bytes("hash"@), jstr(p.hash@)),
            member(str_bytes("version"@), dec_bytes(p.version as nat)),
            member(
                str_bytes("referenced_files"@),
                json_array(
                    rendered_list(p.referenced_files.deep_view(), |f: Seq<char>| jstr(f)),
                    (ind + 2) as nat,
                ),
            ),
            member(
                str_bytes("volumes"@),
                json_array(
                    rendered_list(p.volumes@, |v: VolumeInfo| json_volume(v, (ind + 4) as nat)),
                    (ind + 2) as nat,
                ),
            ),
        ]);
    }
    render_object(members, ind)
}

/// The encoding of a shimcache entry.
pub open spec fn json_shimcache(e: ShimcacheEntry, ind: nat) -> Seq<u8> {
    json_object(
        seq![
            member(str_bytes("path"@), jstr(e.path@)),
            member(str_bytes("last_modified"@), jstr(e.last_modified@)),
            member(str_bytes("file_size"@), dec_bytes(e.file_size as nat)),
            member(str_bytes("last_update"@), jstr(e.last_update@)),
            member(str_bytes("execution_flag"@), json_bool(e.execution_flag)),
        ],
        ind,
    )
}

fn render_shimcache(e: &ShimcacheEntry, ind: usize) -> (r: Vec<u8>)
    requires
        ind <= 40,
    ensures
        r@ == json_shimcache(*e, ind as nat),
{
    let mut members: Vec<Vec<u8>> = Vec::new();
    members.push(render_member("path", render_string(e.path.as_str())));
    members.push(render_member("last_modified", render_string(e.last_modified.as_str())));
    members.push(render_member("file_size", render_u64(e.file_size)));
    members.push(render_member("last_update", render_string(e.last_update.as_str())));
    members.push(render_member("execution_flag", render_bool(e.execution_flag)));
    proof {
        assert(members.deep_view() =~~= seq![
            member(str_bytes("path"@), jstr(e.path@)),
            member(str_bytes("last_modified"@), jstr(e.last_modified@)),
            member(str_bytes("file_size"@), dec_bytes(e.file_size as nat)),
            member(str_bytes("last_update"@), jstr(e.last_update@)),
            member(str_bytes("execution_flag"@), json_bool(e.execution_flag)),
        ]);
    }
    render_object(members, ind)
}

/// The encoding of the collection summary.
pub open spec fn json_summary(s: CollectionSummary, ind: nat) -> Seq<u8> {
    json_object(
        seq![
            member(str_bytes("total_logs"@), dec_bytes(s.total_logs as nat)),
            member(str_bytes("error_count"@), dec_bytes(s.error_count as nat)),
            member(str_bytes("warning_count"@), dec_bytes(s.warning_count as nat)),
            member(str_bytes("success_rate"@), dec_bytes(s.success_rate as nat)),
        ],
        ind,
    )
}

fn render_summary(s: &CollectionSummary, ind: usize) -> (r: Vec<u8>)
    requires
        ind <= 40,
    ensures
        r@ == json_summary(*s, ind as nat),
{
    let mut members: Vec<Vec<u8>> = Vec::new();
    members.push(render_member("total_logs", render_u64(s.total_logs)));
    members.push(render_member("error_count", render_u64(s.error_count)));
    members.push(render_member("warning_count", render_u64(s.warning_count)));
    members.push(render_member("success_rate", render_u64(s.success_rate)));
    proof {
        assert(members.deep_view() =~~= seq![
            member(str_bytes("total_logs"@), dec_bytes(s.total_logs as nat)),
            member(str_bytes("error_count"@), dec_bytes(s.error_count as nat)),
            member(str_bytes("warning_count"@), dec_bytes(s.warning_count as nat)),
            member(str_bytes("success_rate"@), dec_bytes(s.success_rate as nat)),
        ]);
    }
    render_object(members, ind)
}

/// The encoding of the scan metadata.
pub open spec fn json_metadata(m: ScanMetadata, ind: nat) -> Seq<u8> {
    json_object(
        seq![
            member(str_bytes("scan_id"@), jstr(m.scan_id@)),
            member(str_bytes("scan_start_utc"@), jstr(m.scan_start_utc@)),
            member(str_bytes("scan_duration_ms"@), dec_bytes(m.scan_duration_ms as nat)),
            member(str_bytes("hostname"@), jstr(m.hostname@)),
            member(str_bytes("os_version"@), jstr(m.os_version@)),
            member(str_bytes("cli_version"@), jstr(m.cli_version@)),
            member(str_bytes("total_artifacts"@), dec_bytes(m.total_artifacts as nat)),
            member(str_bytes("collection_summary"@), json_summary(m.collection_summary, ind + 2)),
        ],
        ind,
    )
}

#[verifier::rlimit(80)]
fn render_metadata(m: &ScanMetadata, ind: usize) -> (r: Vec<u8>)
    requires
        ind <= 36,
    ensures
        r@ == json_metadata(*m, ind as nat),
{
    let mut members: Vec<Vec<u8>> = Vec::new();
    members.push(render_member("scan_id", render_string(m.scan_id.as_str())));
    members.push(render_member("scan_start_utc", render_string(m.scan_start_utc.as_str())));
    members.push(render_member("scan_duration_ms", render_u64(m.scan_duration_ms)));
    members.push(render_member("hostname", render_string(m.hostname.as_str())));
    members.push(render_member("os_version", render_string(m.os_version.as_str())));
    members.push(render_member("cli_version", render_string(m.cli_version.as_str())));
    members.push(render_member("total_artifacts", render_u64(m.total_artifacts)));
    members.push(render_member("collection_summary", render_summary(&m.collection_summary, ind + 2)));
    proof {
        assert(members.deep_view() =~~= seq![
            member(str_bytes("scan_id"@), jstr(m.scan_id@)),
            member(str_bytes("scan_start_utc"@), jstr(m.scan_start_utc@)),
            member(str_bytes("scan_duration_ms"@), dec_bytes(m.scan_duration_ms as nat)),
            member(str_bytes("hostname"@), jstr(m.hostname@)),
            member(str_bytes("os_version"@), jstr(m.os_version@)),
            member(str_bytes("cli_version"@), jstr(m.cli_version@)),
            member(str_bytes("total_artifacts"@), dec_bytes(m.total_artifacts as nat)),
            member(
                str_bytes("collection_summary"@),
                json_summary(m.collection_summary, (ind + 2) as nat),
            ),
        ]);
    }
    render_object(members, ind)
}

/// The encoding of the execution evidence.
pub open spec fn json_execution_evidence(e: ExecutionEvidence, ind: nat) -> Seq<u8> {
    json_object(
        seq![
            member(
                str_bytes("prefetch_files"@),
                json_array(
                    rendered_list(e.prefetch_files@, |p: PrefetchFile| json_prefetch(p, ind + 4)),
                    ind + 2,
                ),
            ),
            member(
                str_bytes("shimcache_entries"@),
                json_array(
                    rendered_list(e.shimcache_entries@, |s: ShimcacheEntry| json_shimcache(s, ind + 4)),
                    ind + 2,
                ),
            ),
        ],
        ind,
    )
}

#[verifier::rlimit(80)]
fn render_execution_evidence(e: &ExecutionEvidence, ind: usize) -> (r: Vec<u8>)
    requires
        ind <= 32,
    ensures
        r@ == json_execution_evidence(*e, ind as nat),
{
    let mut pfs: Vec<Vec<u8>> = Vec::new();
    let np = e.prefetch_files.len();
    for i in 0..np
        invariant
            np == e.prefetch_files@.len(),
            ind <= 32,
            pfs.deep_view() =~~= rendered_list(e.prefetch_files@.take(i as int),
                |p: PrefetchFile| json_prefetch(p, (ind + 4) as nat),
            ),
    {
        pfs.push(render_prefetch(&e.prefetch_files[i], ind + 4));
        proof {
            assert(e.prefetch_files@.take(i + 1).drop_last() =~= e.prefetch_files@.take(i as int));
            assert(e.prefetch_files@.take(i + 1).last() == e.prefetch_files@[i as int]);
            assert(pfs.deep_view() =~~= rendered_list(e.prefetch_files@.take(i + 1),
                |p: PrefetchFile| json_prefetch(p, (ind + 4) as nat),
            ));
        }
    }
    proof {
        assert(e.prefetch_files@.take(np as int) =~= e.prefetch_files@);
    }
    let pf_json = render_array(pfs, ind + 2);
    let mut scs: Vec<Vec<u8>> = Vec::new();
    let ns = e.shimcache_entries.len();
    for i in 0..ns
        invariant
            ns == e.shimcache_entries@.len(),
            ind <= 32,
            scs.deep_view() =~~= rendered_list(e.shimcache_entries@.take(i as int),
                |s: ShimcacheEntry| json_shimcache(s, (ind + 4) as nat),
            ),
    {
        scs.push(render_shimcache(&e.shimcache_entries[i], ind + 4));
        proof {
            assert(e.shimcache_entries@.take(i + 1).drop_last() =~= e.shimcache_entries@.take(i as int));
            assert(e.shimcache_entries@.take(i + 1).last() == e.shimcache_entries@[i as int]);
            assert(scs.deep_view() =~~= rendered_list(e.shimcache_entries@.take(i + 1),
                |s: ShimcacheEntry| json_shimcache(s, (ind + 4) as nat),
            ));
        }
    }
    proof {
        assert(e.shimcache_entries@.take(ns as int) =~= e.shimcache_entries@);
    }
    let sc_json = render_array(scs, ind + 2);
    let mut members: Vec<Vec<u8>> = Vec::new();
    members.push(render_member("prefetch_files", pf_json));
    members.push(render_member("shimcache_entries", sc_json));
    proof {
        assert(members.deep_view() =~~= seq![
            member(
                str_bytes("prefetch_files"@),
                json_array(
                    rendered_list(e.prefetch_files@, 
                        |p: PrefetchFile| json_prefetch(p, (ind + 4) as nat),
                    ),
                    (ind + 2) as nat,
                ),
            ),
            member(
                str_bytes("shimcache_entries"@),
                json_array(
                    rendered_list(e.shimcache_entries@, 
                        |s: ShimcacheEntry| json_shimcache(s, (ind + 4) as nat),
                    ),
                    (ind + 2) as nat,
                ),
            ),
        ]);
    }
    render_object(members, ind)
}


/// One rendered process list.
#[verifier::rlimit(80)]
fn render_process_list(v: &Vec<Process>, ind: usize) -> (r: Vec<u8>)
    requires
        ind <= 30,
    ensures
        r@ == json_array(
            rendered_list(v@, |p: Process| json_process(p, (ind + 2) as nat)),
            ind as nat,
        ),
{
    let mut items: Vec<Vec<u8>> = Vec::new();
    let n = v.len();
    for i in 0..n
        invariant
            n == v@.len(),
            ind <= 30,
            items.deep_view() =~~= rendered_list(v@.take(i as int),
                |p: Process| json_process(p, (ind + 2) as nat),
            ),
    {
        items.push(render_process(&v[i], ind + 2));
        proof {
            assert(v@.take(i + 1).drop_last() =~= v@.take(i as int));
            assert(v@.take(i + 1).last() == v@[i as int]);
            assert(items.deep_view() =~~= rendered_list(v@.take(i + 1),
                |p: Process| json_process(p, (ind + 2) as nat),
            ));
        }
    }
    proof {
        assert(v@.take(n as int) =~= v@);
    }
    render_array(items, ind)
}

/// One rendered connection list.
#[verifier::rlimit(80)]
fn render_connection_list(v: &Vec<NetworkConnection>, ind: usize) -> (r: Vec<u8>)
    requires
        ind <= 30,
    ensures
        r@ == json_array(
            rendered_list(v@, |c: NetworkConnection| json_connection(c, (ind + 2) as nat)),
            ind as nat,
        ),
{
    let mut items: Vec<Vec<u8>> = Vec::new();
    let n = v.len();
    for i in 0..n
        invariant
            n == v@.len(),
            ind <= 30,
            items.deep_view() =~~= rendered_list(v@.take(i as int),
                |c: NetworkConnection| json_connection(c, (ind + 2) as nat),
            ),
    {
        items.push(render_connection(&v[i], ind + 2));
        proof {
            assert(v@.take(i + 1).drop_last() =~= v@.take(i as int));
            assert(v@.take(i + 1).last() == v@[i as int]);
            assert(items.deep_view() =~~= rendered_list(v@.take(i + 1),
                |c: NetworkConnection| json_connection(c, (ind + 2) as nat),
            ));
        }
    }
    proof {
        assert(v@.take(n as int) =~= v@);
    }
    render_array(items, ind)
}

/// One rendered mechanism list.
#[verifier::rlimit(80)]
fn render_mechanism_list(v: &Vec<PersistenceMechanism>, ind: usize) -> (r: Vec<u8>)
    requires
        ind <= 30,
    ensures
        r@ == json_array(
            rendered_list(v@, |m: PersistenceMechanism| json_mechanism(m, (ind + 2) as nat)),
            ind as nat,
        ),
{
    let mut items: Vec<Vec<u8>> = Vec::new();
    let n = v.len();
    for i in 0..n
        invariant
            n == v@.len(),
            ind <= 30,
            items.deep_view() =~~= rendered_list(v@.take(i as int),
                |m: PersistenceMechanism| json_mechanism(m, (ind + 2) as nat),
            ),
    {
        items.push(render_mechanism(&v[i], ind + 2));
        proof {
            assert(v@.take(i + 1).drop_last() =~= v@.take(i as int));
            assert(v@.take(i + 1).last() == v@[i as int]);
            assert(items.deep_view() =~~= rendered_list(v@.take(i + 1),
                |m: PersistenceMechanism| json_mechanism(m, (ind + 2) as nat),
            ));
        }
    }
    proof {
        assert(v@.take(n as int) =~= v@);
    }
    render_array(items, ind)
}

/// One rendered collection-log list.
#[verifier::rlimit(80)]
fn render_log_list(v: &Vec<LogEntry>, ind: usize) -> (r: Vec<u8>)
    requires
        ind <= 30,
    ensures
        r@ == json_array(
            rendered_list(v@, |e: LogEntry| json_log_entry(e, (ind + 2) as nat)),
            ind as nat,
        ),
{
    let mut items: Vec<Vec<u8>> = Vec::new();
    let n = v.len();
    for i in 0..n
        invariant
            n == v@.len(),
            ind <= 30,
            items.deep_view() =~~= rendered_list(v@.take(i as int),
                |e: LogEntry| json_log_entry(e, (ind + 2) as nat),
            ),
    {
        items.push(render_log_entry(&v[i], ind + 2));
        proof {
            assert(v@.take(i + 1).drop_last() =~= v@.take(i as int));
            assert(v@.take(i + 1).last() == v@[i as int]);
            assert(items.deep_view() =~~= rendered_list(v@.take(i + 1),
                |e: LogEntry| json_log_entry(e, (ind + 2) as nat),
            ));
        }
    }
    proof {
        assert(v@.take(n as int) =~= v@);
    }
    render_array(items, ind)
}

/// The encoding of the artifact container.
pub open spec fn json_artifacts(a: Artifacts, ind: nat) -> Seq<u8> {
    json_object(
        seq![
            member(str_bytes("system_info"@), json_system_info(a.system_info, ind + 2)),
            member(
                str_bytes("running_processes"@),
                json_array(
                    rendered_list(a.running_processes@, |p: Process| json_process(p, ind + 4)),
                    ind + 2,
                ),
            ),
            member(
                str_bytes("network_connections"@),
                json_array(
                    rendered_list(a.network_connections@, 
                        |c: NetworkConnection| json_connection(c, ind + 4),
                    ),
                    ind + 2,
                ),
            ),
            member(
                str_bytes("persistence_mechanisms"@),
                json_array(
                    rendered_list(a.persistence_mechanisms@, 
                        |m: PersistenceMechanism| json_mechanism(m, ind + 4),
                    ),
                    ind + 2,
                ),
            ),
            member(str_bytes("event_logs"@), json_event_logs(a.event_logs, ind + 2)),
            member(
                str_bytes("execution_evidence"@),
                json_execution_evidence(a.execution_evidence, ind + 2),
            ),
        ],
        ind,
    )
}

/// Assembles a three-member object from rendered members.
fn assemble_object3(m1: Vec<u8>, m2: Vec<u8>, m3: Vec<u8>, ind: usize) -> (r: Vec<u8>)
    requires
        ind + 2 <= usize::MAX,
    ensures
        r@ == json_object(seq![m1@, m2@, m3@], ind as nat),
{
    let ghost g1 = m1@;
    let ghost g2 = m2@;
    let ghost g3 = m3@;
    let mut members: Vec<Vec<u8>> = Vec::new();
    members.push(m1);
    members.push(m2);
    members.push(m3);
    proof {
        assert(members.deep_view() =~~= seq![g1, g2, g3]);
    }
    render_object(members, ind)
}

/// Assembles a six-member object from rendered members.
fn assemble_object6(
    m1: Vec<u8>,
    m2: Vec<u8>,
    m3: Vec<u8>,
    m4: Vec<u8>,
    m5: Vec<u8>,
    m6: Vec<u8>,
    ind: usize,
) -> (r: Vec<u8>)
    requires
        ind + 2 <= usize::MAX,
    ensures
        r@ == json_object(seq![m1@, m2@, m3@, m4@, m5@, m6@], ind as nat),
{
    let ghost g1 = m1@;
    let ghost g2 = m2@;
    let ghost g3 = m3@;
    let ghost g4 = m4@;
    let ghost g5 = m5@;
    let ghost g6 = m6@;
    let mut members: Vec<Vec<u8>> = Vec::new();
    members.push(m1);
    members.push(m2);
    members.push(m3);
    members.push(m4);
    members.push(m5);
    members.push(m6);
    proof {
        assert(members.deep_view() =~~= seq![g1, g2, g3, g4, g5, g6]);
    }
    render_object(members, ind)
}

/// Renders the artifact container.
#[verifier::rlimit(100)]
fn render_artifacts(a: &Artifacts, ind: usize) -> (r: Vec<u8>)
    requires
        ind <= 28,
    ensures
        r@ == json_artifacts(*a, ind as nat),
{
    let m1 = render_member("system_info", render_system_info(&a.system_info, ind + 2));
    let m2 = render_member("running_processes", render_process_list(&a.running_processes, ind + 2));
    let m3 = render_member(
        "network_connections",
        render_connection_list(&a.network_connections, ind + 2),
    );
    let m4 = render_member(
        "persistence_mechanisms",
        render_mechanism_list(&a.persistence_mechanisms, ind + 2),
    );
    let m5 = render_member("event_logs", render_event_logs(&a.event_logs, ind + 2));
    let m6 = render_member(
        "execution_evidence",
        render_execution_evidence(&a.execution_evidence, ind + 2),
    );
    let ghost gm = seq![m1@, m2@, m3@, m4@, m5@, m6@];
    let out = assemble_object6(m1, m2, m3, m4, m5, m6, ind);
    proof {
        assert(gm =~~= seq![
            member(
                str_bytes("system_info"@),
                json_system_info(a.system_info, (ind + 2) as nat),
            ),
            member(
                str_bytes("running_processes"@),
                json_array(
                    rendered_list(
                        a.running_processes@,
                        |p: Process| json_process(p, (ind + 4) as nat),
                    ),
                    (ind + 2) as nat,
                ),
            ),
            member(
                str_bytes("network_connections"@),
                json_array(
                    rendered_list(
                        a.network_connections@,
                        |c: NetworkConnection| json_connection(c, (ind + 4) as nat),
                    ),
                    (ind + 2) as nat,
                ),
            ),
            member(
                str_bytes("persistence_mechanisms"@),
                json_array(
                    rendered_list(
                        a.persistence_mechanisms@,
                        |m: PersistenceMechanism| json_mechanism(m, (ind + 4) as nat),
                    ),
                    (ind + 2) as nat,
                ),
            ),
            member(str_bytes("event_logs"@), json_event_logs(a.event_logs, (ind + 2) as nat)),
            member(
                str_bytes("execution_evidence"@),
                json_execution_evidence(a.execution_evidence, (ind + 2) as nat),
            ),
        ]);
        assert(out@ == json_artifacts(*a, ind as nat));
    }
    out
}

/// The encoding of a whole report: `scan_metadata`, `artifacts`, then
/// `collection_log`, pretty-printed from indent 0.
pub open spec fn json_scan_results(r: ScanResults) -> Seq<u8> {
    json_object(
        seq![
            member(str_bytes("scan_metadata"@), json_metadata(r.scan_metadata, 2)),
            member(str_bytes("artifacts"@), json_artifacts(r.artifacts, 2)),
            member(
                str_bytes("collection_log"@),
                json_array(rendered_list(r.collection_log@, |e: LogEntry| json_log_entry(e, 4)), 2),
            ),
        ],
        0,
    )
}

/// Serializes a report to its canonical JSON bytes: `scan_metadata`,
/// `artifacts`, then `collection_log`, pretty-printed from indent 0.
#[verifier::rlimit(100)]
pub fn serialize_scan_results(results: &ScanResults) -> (r: Vec<u8>)
    ensures
        r@ == json_scan_results(*results),
{
    let m1 = render_member("scan_metadata", render_metadata(&results.scan_metadata, 2));
    let m2 = render_member("artifacts", render_artifacts(&results.artifacts, 2));
    let m3 = render_member("collection_log", render_log_list(&results.collection_log, 2));
    let ghost gm = seq![m1@, m2@, m3@];
    let out = assemble_object3(m1, m2, m3, 0);
    proof {
        assert(gm =~~= seq![
            member(str_bytes("scan_metadata"@), json_metadata(results.scan_metadata, 2nat)),
            member(str_bytes("artifacts"@), json_artifacts(results.artifacts, 2nat)),
            member(
                str_bytes("collection_log"@),
                json_array(
                    rendered_list(
                        results.collection_log@,
                        |e: LogEntry| json_log_entry(e, 4nat),
                    ),
                    2nat,
                ),
            ),
        ]);
        assert(out@ == json_scan_results(*results));
    }
    out
}

} // verus!
