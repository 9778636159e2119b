//! The network collector: turns raw rows of the OS's TCP and UDP
//! connection tables into [`NetworkConnection`] records, sorted by protocol
//! and local address.  Reading the tables themselves is OS work that
//! happens outside the library; on hosts without those tables the row
//! vectors are empty.

use vstd::prelude::*;
use vstd::string::StringExecFns;
use crate::types::{NetworkConnection, LogEntry, logs_match, spec_is_external};
use crate::strutil::{dec_str, u64_to_string, str_bytes};
use crate::sortutil::{lex_le, sort_keyed, keys_sorted};

verus! {

/// One row of the TCP table keyed by owning process: addresses and ports
/// in network order, as the OS hands them out.
#[derive(Debug, Clone)]
pub struct TcpRow {
    pub local_addr: u32,
    pub local_port: u32,
    pub remote_addr: u32,
    pub remote_port: u32,
    pub state: u32,
    pub owning_pid: u32,
}

/// One row of the UDP table keyed by owning process.
#[derive(Debug, Clone)]
pub struct UdpRow {
    pub local_addr: u32,
    pub local_port: u32,
    pub owning_pid: u32,
}

/// Dotted-decimal rendering of an IPv4 address given in network byte
/// order as a little-endian word.
pub open spec fn spec_ip_str(a: u32) -> Seq<char> {
    dec_str((a & 0xff) as nat) + seq!['.'] + dec_str(((a >> 8) & 0xff) as nat) + seq!['.']
        + dec_str(((a >> 16) & 0xff) as nat) + seq!['.'] + dec_str(((a >> 24) & 0xff) as nat)
}

/// Exec counterpart of [`spec_ip_str`].
pub fn format_ip_address(addr: u32) -> (r: String)
    ensures
        r@ == spec_ip_str(addr),
{
    proof {
        reveal_strlit(".");
        assert("."@ =~= seq!['.']);
    }
    let mut s = u64_to_string((addr & 0xff) as u64);
    s.append(".");
    let b1 = u64_to_string(((addr >> 8) & 0xff) as u64);
    s.append(b1.as_str());
    s.append(".");
    let b2 = u64_to_string(((addr >> 16) & 0xff) as u64);
    s.append(b2.as_str());
    s.append(".");
    let b3 = u64_to_string(((addr >> 24) & 0xff) as u64);
    s.append(b3.as_str());
    s
}

/// The fixed name of each TCP state code; anything else renders as
/// `UNKNOWN(code)`.
pub open spec fn spec_tcp_state(state: u32) -> Seq<char> {
    if state == 1 {
        "CLOSED"@
    } else if state == 2 {
        "LISTEN"@
    } else if state == 3 {
        "SYN_SENT"@
    } else if state == 4 {
        "SYN_RCVD"@
    } else if state == 5 {
        "ESTABLISHED"@
    } else if state == 6 {
        "FIN_WAIT1"@
    } else if state == 7 {
        "FIN_WAIT2"@
    } else if state == 8 {
        "CLOSE_WAIT"@
    } else if state == 9 {
        "CLOSING"@
    } else if state == 10 {
        "LAST_ACK"@
    } else if state == 11 {
        "TIME_WAIT"@
    } else if state == 12 {
        "DELETE_TCB"@
    } else {
        "UNKNOWN("@ + dec_str(state as nat) + ")"@
    }
}

/// Exec counterpart of [`spec_tcp_state`].
pub fn format_tcp_state(state: u32) -> (r: String)
    ensures
        r@ == spec_tcp_state(state),
{
    match state {
        1 => "CLOSED".to_owned(),
        2 => "LISTEN".to_owned(),
        3 => "SYN_SENT".to_owned(),
        4 => "SYN_RCVD".to_owned(),
        5 => "ESTABLISHED".to_owned(),
        6 => "FIN_WAIT1".to_owned(),
        7 => "FIN_WAIT2".to_owned(),
        8 => "CLOSE_WAIT".to_owned(),
        9 => "CLOSING".to_owned(),
        10 => "LAST_ACK".to_owned(),
        11 => "TIME_WAIT".to_owned(),
        12 => "DELETE_TCB".to_owned(),
        _ => {
            let mut s = "UNKNOWN(".to_owned();
            let num = u64_to_string(state as u64);
            s.append(num.as_str());
            s.append(")");
            s
        },
    }
}

/// Host-endian value of a port given in network order: the low two bytes,
/// swapped.
pub open spec fn spec_port(p: u32) -> u16 {
    ((p & 0xff) * 256 + ((p >> 8) & 0xff)) as u16
}

/// Exec counterpart of [`spec_port`].
pub fn port_from_network_order(p: u32) -> (r: u16)
    ensures
        r == spec_port(p),
{
    proof {
        assert((p & 0xff) < 256 && ((p >> 8) & 0xff) < 256) by (bit_vector);
    }
    ((p & 0xff) * 256 + ((p >> 8) & 0xff)) as u16
}

/// `c` is the record of TCP table row `row`.
pub open spec fn tcp_conn_matches(row: TcpRow, c: NetworkConnection) -> bool {
    &&& c.protocol@ == "TCP"@
    &&& c.local_address@ == spec_ip_str(row.local_addr)
    &&& c.local_port == spec_port(row.local_port)
    &&& c.remote_address@ == spec_ip_str(row.remote_addr)
    &&& c.remote_port == spec_port(row.remote_port)
    &&& c.state@ == spec_tcp_state(row.state)
    &&& c.owning_pid == row.owning_pid
    &&& c.process_name@.len() == 0
}

/// `c` is the record of UDP table row `row`: the remote end is the
/// placeholder, and the state is fixed.
pub open spec fn udp_conn_matches(row: UdpRow, c: NetworkConnection) -> bool {
    &&& c.protocol@ == "UDP"@
    &&& c.local_address@ == spec_ip_str(row.local_addr)
    &&& c.local_port == spec_port(row.local_port)
    &&& c.remote_address@ == "*"@
    &&& c.remote_port == 0
    &&& c.state@ == "LISTENING"@
    &&& c.owning_pid == row.owning_pid
    &&& c.process_name@.len() == 0
}

/// Builds the record of one TCP table row.
pub fn connection_from_tcp_row(row: &TcpRow) -> (r: NetworkConnection)
    ensures
        tcp_conn_matches(*row, r),
{
    NetworkConnection {
        protocol: "TCP".to_owned(),
        local_address: format_ip_address(row.local_addr),
        local_port: port_from_network_order(row.local_port),
        remote_address: format_ip_address(row.remote_addr),
        remote_port: port_from_network_order(row.remote_port),
        state: format_tcp_state(row.state),
        owning_pid: row.owning_pid,
        process_name: String::new(),
    }
}

/// Builds the record of one UDP table row.
pub fn connection_from_udp_row(row: &UdpRow) -> (r: NetworkConnection)
    ensures
        udp_conn_matches(*row, r),
{
    NetworkConnection {
        protocol: "UDP".to_owned(),
        local_address: format_ip_address(row.local_addr),
        local_port: port_from_network_order(row.local_port),
        remote_address: "*".to_owned(),
        remote_port: 0,
        state: "LISTENING".to_owned(),
        owning_pid: row.owning_pid,
        process_name: String::new(),
    }
}

/// The record arose from one of the given table rows.
pub open spec fn conn_from_some_row(
    tcp: Seq<TcpRow>,
    udp: Seq<UdpRow>,
    c: NetworkConnection,
) -> bool {
    ||| exists|k: int| 0 <= k < tcp.len() && tcp_conn_matches(#[trigger] tcp[k], c)
    ||| exists|k: int| 0 <= k < udp.len() && udp_conn_matches(#[trigger] udp[k], c)
}

/// A sort pair carries a record built from one of the given rows, under
/// its own sort key.
pub open spec fn pairs_entry_ok(
    tcp: Seq<TcpRow>,
    udp: Seq<UdpRow>,
    p: (Vec<u8>, NetworkConnection),
) -> bool {
    &&& conn_from_some_row(tcp, udp, p.1)
    &&& p.0@ == net_key(p.1)
}

/// The key the connection list is sorted by: protocol, then local address.
pub open spec fn net_key(c: NetworkConnection) -> Seq<u8> {
    str_bytes(c.protocol@) + seq![0u8] + str_bytes(c.local_address@)
}

/// Exec counterpart of [`net_key`].
fn net_key_of(c: &NetworkConnection) -> (r: Vec<u8>)
    ensures
        r@ == net_key(*c),
{
    let mut k: Vec<u8> = Vec::new();
    k.extend_from_slice(c.protocol.as_str().as_bytes());
    k.push(0u8);
    k.extend_from_slice(c.local_address.as_str().as_bytes());
    assert(k@ =~= net_key(*c));
    k
}

/// The messages the collector logs: a start line, per-table results, a
/// total, and a completion line.
pub open spec fn net_log_msgs(
    tcp: Result<Seq<TcpRow>, Seq<char>>,
    udp: Result<Seq<UdpRow>, Seq<char>>,
    total: int,
    external: int,
) -> Seq<(Seq<char>, Seq<char>)> {
    seq![("INFO"@, "Starting network connection enumeration"@)] + (match tcp {
        Ok(rows) => seq![
            ("INFO"@, "Found "@ + dec_str(rows.len() as nat) + " TCP connections"@),
        ],
        Err(e) => seq![("ERROR"@, "Failed to collect TCP connections: "@ + e)],
    }) + (match udp {
        Ok(rows) => seq![
            ("INFO"@, "Found "@ + dec_str(rows.len() as nat) + " UDP connections"@),
        ],
        Err(e) => seq![("ERROR"@, "Failed to collect UDP connections: "@ + e)],
    }) + seq![
        (
            "INFO"@,
            "Total connections: "@ + dec_str(total as nat) + ", External: "@ + dec_str(
                external as nat,
            ),
        ),
        ("INFO"@, "Network connection enumeration completed"@),
    ]
}

/// Builds, sorts and logs the connection records of the given table rows.
/// A failed table read contributes an `ERROR` entry and no records.
#[verifier::rlimit(60)]
pub fn collect_network_connections(
    tcp_rows: Result<Vec<TcpRow>, String>,
    udp_rows: Result<Vec<UdpRow>, String>,
) -> (r: (Vec<NetworkConnection>, Vec<LogEntry>))
    ensures
        ({
            let conns = r.0@;
            &&& forall|i: int, j: int|
                0 <= i <= j < conns.len() ==> lex_le(
                    net_key(#[trigger] conns[i]),
                    net_key(#[trigger] conns[j]),
                )
            &&& conns.len() == (match tcp_rows {
                Ok(rows) => rows@.len(),
                Err(_) => 0,
            }) + (match udp_rows {
                Ok(rows) => rows@.len(),
                Err(_) => 0,
            })
            &&& forall|i: int|
                0 <= i < conns.len() ==> conn_from_some_row(
                    (match tcp_rows {
                        Ok(rows) => rows@,
                        Err(_) => Seq::empty(),
                    }),
                    (match udp_rows {
                        Ok(rows) => rows@,
                        Err(_) => Seq::empty(),
                    }),
                    #[trigger] conns[i],
                )
        }),
        logs_match(
            r.1@,
            net_log_msgs(
                (match tcp_rows {
                    Ok(rows) => Ok(rows@),
                    Err(e) => Err(e@),
                }),
                (match udp_rows {
                    Ok(rows) => Ok(rows@),
                    Err(e) => Err(e@),
                }),
                r.0@.len() as int,
                spec_external_count(r.0@),
            ),
        ),
{
    let ghost gtcp: Seq<TcpRow> = if tcp_rows is Ok {
        tcp_rows->Ok_0@
    } else {
        Seq::empty()
    };
    let ghost gudp: Seq<UdpRow> = if udp_rows is Ok {
        udp_rows->Ok_0@
    } else {
        Seq::empty()
    };
    let mut logs: Vec<LogEntry> = Vec::new();
    logs.push(LogEntry::info("Starting network connection enumeration"));
    let mut pairs: Vec<(Vec<u8>, NetworkConnection)> = Vec::new();
    let mut tcp_count: usize = 0;
    let mut udp_count: usize = 0;
    match &tcp_rows {
        Ok(rows) => {
            let n = rows.len();
            for i in 0..n
                invariant
                    n == rows@.len(),
                    gtcp == rows@,
                    pairs@.len() == i,
                    forall|k: int|
                        0 <= k < pairs@.len() ==> pairs_entry_ok(gtcp, gudp, #[trigger] pairs@[k]),
            {
                let c = connection_from_tcp_row(&rows[i]);
                let key = net_key_of(&c);
                let ghost gc = c;
                let ghost pre = pairs@;
                pairs.push((key, c));
                proof {
                    assert(tcp_conn_matches(gtcp[i as int], gc));
                    assert(pairs@.last().1 == gc);
                    assert(pairs_entry_ok(gtcp, gudp, pairs@.last()));
                    assert forall|k: int| 0 <= k < pairs@.len() implies pairs_entry_ok(
                        gtcp,
                        gudp,
                        #[trigger] pairs@[k],
                    ) by {
                        if k < pre.len() {
                            assert(pairs@[k] == pre[k]);
                            assert(pairs_entry_ok(gtcp, gudp, pre[k]));
                        } else {
                            assert(pairs@[k] == pairs@.last());
                        }
                    }
                }
            }
            tcp_count = n;
            let mut m = "Found ".to_owned();
            let num = u64_to_string(n as u64);
            m.append(num.as_str());
            m.append(" TCP connections");
            logs.push(LogEntry::info(m.as_str()));
        },
        Err(e) => {
            let mut m = "Failed to collect TCP connections: ".to_owned();
            m.append(e.as_str());
            logs.push(LogEntry::error(m.as_str()));
        },
    }
    let ghost tcp_pairs = pairs@;
    match &udp_rows {
        Ok(rows) => {
            let n = rows.len();
            for i in 0..n
                invariant
                    n == rows@.len(),
                    gudp == rows@,
                    pairs@.len() == tcp_pairs.len() + i,
                    forall|k: int|
                        0 <= k < pairs@.len() ==> pairs_entry_ok(gtcp, gudp, #[trigger] pairs@[k]),
            {
                let c = connection_from_udp_row(&rows[i]);
                let key = net_key_of(&c);
                let ghost gc = c;
                let ghost pre = pairs@;
                pairs.push((key, c));
                proof {
                    assert(udp_conn_matches(gudp[i as int], gc));
                    assert(pairs@.last().1 == gc);
                    assert(pairs_entry_ok(gtcp, gudp, pairs@.last()));
                    assert forall|k: int| 0 <= k < pairs@.len() implies pairs_entry_ok(
                        gtcp,
                        gudp,
                        #[trigger] pairs@[k],
                    ) by {
                        if k < pre.len() {
                            assert(pairs@[k] == pre[k]);
                            assert(pairs_entry_ok(gtcp, gudp, pre[k]));
                        } else {
                            assert(pairs@[k] == pairs@.last());
                        }
                    }
                }
            }
            udp_count = n;
            let mut m = "Found ".to_owned();
            let num = u64_to_string(n as u64);
            m.append(num.as_str());
            m.append(" UDP connections");
            logs.push(LogEntry::info(m.as_str()));
        },
        Err(e) => {
            let mut m = "Failed to collect UDP connections: ".to_owned();
            m.append(e.as_str());
            logs.push(LogEntry::error(m.as_str()));
        },
    }
    proof {
        assert(pairs@.len() == (match tcp_rows {
            Ok(rows) => rows@.len() as int,
            Err(_) => 0int,
        }) + (match udp_rows {
            Ok(rows) => rows@.len() as int,
            Err(_) => 0int,
        }));
    }
    let ghost built = pairs@;
    let mut sorted = sort_keyed(pairs);
    let ghost sorted_all = sorted@;
    let mut conns: Vec<NetworkConnection> = Vec::new();
    proof {
        broadcast use vstd::seq_lib::group_to_multiset_ensures;

        assert forall|k: int| 0 <= k < sorted_all.len() implies pairs_entry_ok(
            gtcp,
            gudp,
            #[trigger] sorted_all[k],
        ) by {
            assert(sorted_all.to_multiset().contains(sorted_all[k]));
            assert(built.to_multiset().contains(sorted_all[k]));
            assert(built.contains(sorted_all[k]));
            let j = choose|j: int| 0 <= j < built.len() && built[j] == sorted_all[k];
            assert(pairs_entry_ok(gtcp, gudp, built[j]));
        }
    }
    while sorted.len() > 0
        invariant
            conns@.len() + sorted@.len() == sorted_all.len(),
            sorted@ == sorted_all.skip(conns@.len() as int),
            keys_sorted(sorted_all),
            forall|k: int|
                0 <= k < sorted_all.len() ==> pairs_entry_ok(gtcp, gudp, #[trigger] sorted_all[k]),
            forall|k: int| 0 <= k < conns@.len() ==> #[trigger] conns@[k] == sorted_all[k].1,
        decreases sorted@.len(),
    {
        let (_, c) = sorted.remove(0);
        conns.push(c);
        proof {
            assert(sorted@ =~= sorted_all.skip(conns@.len() as int));
        }
    }
    proof {
        broadcast use vstd::seq_lib::group_to_multiset_ensures;

        assert(sorted_all.to_multiset().len() == sorted_all.len());
        assert(built.to_multiset().len() == built.len());
        assert(sorted_all.len() == built.len());
        assert forall|i: int, j: int| 0 <= i <= j < conns@.len() implies lex_le(
            net_key(#[trigger] conns@[i]),
            net_key(#[trigger] conns@[j]),
        ) by {
            assert(conns@[i] == sorted_all[i].1 && conns@[j] == sorted_all[j].1);
            assert(pairs_entry_ok(gtcp, gudp, sorted_all[i]) && pairs_entry_ok(
                gtcp,
                gudp,
                sorted_all[j],
            ));
            assert(lex_le(sorted_all[i].0@, sorted_all[j].0@));
        }
        assert forall|i: int| 0 <= i < conns@.len() implies conn_from_some_row(
            gtcp,
            gudp,
            #[trigger] conns@[i],
        ) by {
            assert(pairs_entry_ok(gtcp, gudp, sorted_all[i]));
            assert(conns@[i] == sorted_all[i].1);
        }
    }
    let external = count_external(&conns);
    let mut m = "Total connections: ".to_owned();
    let num = u64_to_string(conns.len() as u64);
    m.append(num.as_str());
    m.append(", External: ");
    let num2 = u64_to_string(external as u64);
    m.append(num2.as_str());
    logs.push(LogEntry::info(m.as_str()));
    logs.push(LogEntry::info("Network connection enumeration completed"));
    (conns, logs)
}

/// How many connections have an external remote end.
pub open spec fn spec_external_count(s: Seq<NetworkConnection>) -> int
    decreases s.len(),
{
    if s.len() == 0 {
        0
    } else {
        spec_external_count(s.drop_last()) + (if spec_is_external(s.last().remote_address@) {
            1int
        } else {
            0int
        })
    }
}

/// The distinct PIDs of `s`, each exactly once.
pub open spec fn pids_complete(s: Seq<NetworkConnection>, r: Seq<u32>) -> bool {
    &&& forall|p: u32|
        #[trigger] r.contains(p) <==> exists|k: int| 0 <= k < s.len() && (#[trigger] s[k]).owning_pid == p
    &&& forall|i: int, j: int| 0 <= i < j < r.len() ==> r[i] != r[j]
}

/// The PIDs that own at least one connection, ascending and without
/// duplicates.
#[verifier::loop_isolation(false)]
pub fn get_network_active_pids(connections: &[NetworkConnection]) -> (r: Vec<u32>)
    ensures
        crate::sortutil::u32s_sorted(r@),
        pids_complete(connections@, r@),
{
    broadcast use vstd::seq_lib::group_to_multiset_ensures;

    let mut pids: Vec<u32> = Vec::new();
    let n = connections.len();
    for i in 0..n
        invariant
            pids@.len() == i,
            forall|k: int| 0 <= k < i ==> #[trigger] pids@[k] == connections@[k].owning_pid,
    {
        pids.push(connections[i].owning_pid);
    }
    let ghost raw = pids@;
    let sorted = crate::sortutil::sort_u32s(pids);
    proof {
        assert forall|p: u32| #[trigger] sorted@.contains(p) implies raw.contains(p) by {
            assert(sorted@.to_multiset().contains(p));
            assert(raw.to_multiset().contains(p));
        }
        assert forall|p: u32| #[trigger] raw.contains(p) implies sorted@.contains(p) by {
            assert(raw.to_multiset().contains(p));
            assert(sorted@.to_multiset().contains(p));
        }
    }
    let mut out: Vec<u32> = Vec::new();
    let m = sorted.len();
    for i in 0..m
        invariant
            m == sorted@.len(),
            crate::sortutil::u32s_sorted(sorted@),
            forall|p: u32| #[trigger] out@.contains(p) ==> sorted@.take(i as int).contains(p),
            forall|k: int|
                0 <= k < i ==> sorted@.take(i as int).contains(#[trigger] sorted@[k]) ==> out@.contains(
                    sorted@[k],
                ),
            forall|p: u32| sorted@.take(i as int).contains(p) ==> out@.contains(p),
            forall|a: int, b: int| 0 <= a < b < out@.len() ==> out@[a] != out@[b],
            forall|a: int, b: int| 0 <= a <= b < out@.len() ==> out@[a] <= out@[b],
            out@.len() > 0 && i > 0 ==> out@.last() <= sorted@[i - 1],
            i == 0 ==> out@.len() == 0,
    {
        let v = sorted[i];
        let ghost out_pre = out@;
        let keep = if out.len() == 0 {
            true
        } else {
            out[out.len() - 1] != v
        };
        if keep {
            out.push(v);
            proof {
                let ghost pl = out_pre.len() as int;
                assert(out@[out@.len() - 1] == v);
                if pl > 0 {
                    assert(i > 0);
                    assert(out_pre[pl - 1] <= sorted@[i - 1]);
                    assert(sorted@[i - 1] <= sorted@[i as int]);
                    assert(out_pre[pl - 1] != v);
                    assert(out_pre[pl - 1] < v);
                }
                assert forall|a: int, b: int| 0 <= a < b < out@.len() implies out@[a] != out@[b] by {
                    if b == out@.len() - 1 {
                        assert(out@[a] == out_pre[a]);
                        assert(out_pre[a] <= out_pre[pl - 1]);
                    } else {
                        assert(out@[a] == out_pre[a] && out@[b] == out_pre[b]);
                    }
                }
                assert forall|a: int, b: int| 0 <= a <= b < out@.len() implies out@[a] <= out@[b] by {
                    if b == out@.len() - 1 {
                        if a < b {
                            assert(out@[a] == out_pre[a]);
                            assert(out_pre[a] <= out_pre[pl - 1]);
                        }
                    } else {
                        assert(out@[a] == out_pre[a] && out@[b] == out_pre[b]);
                    }
                }
            }
        } else {
            proof {
                assert(out_pre.contains(v)) by {
                    assert(out_pre[out_pre.len() - 1] == v);
                }
            }
        }
        proof {
            broadcast use vstd::seq_lib::lemma_seq_contains_after_push;

            assert(sorted@.take(i + 1) =~= sorted@.take(i as int).push(sorted@[i as int]));
            assert forall|p: u32| sorted@.take(i + 1).contains(p) implies out@.contains(p) by {
                if p != sorted@[i as int] {
                    assert(sorted@.take(i as int).contains(p));
                }
            }
            assert forall|p: u32| #[trigger] out@.contains(p) implies sorted@.take(i + 1).contains(
                p,
            ) by {
                if out_pre.contains(p) {
                    assert(sorted@.take(i as int).contains(p));
                }
            }
        }
    }
    proof {
        assert(sorted@.take(m as int) =~= sorted@);
        assert forall|p: u32|
            #[trigger] out@.contains(p) <==> exists|k: int|
                0 <= k < connections@.len() && (#[trigger] connections@[k]).owning_pid == p by {
            if out@.contains(p) {
                assert(sorted@.contains(p));
                assert(raw.contains(p));
                let k = choose|k: int| 0 <= k < raw.len() && raw[k] == p;
                assert(connections@[k].owning_pid == p);
            }
            if exists|k: int|
                0 <= k < connections@.len() && (#[trigger] connections@[k]).owning_pid == p {
                let k = choose|k: int|
                    0 <= k < connections@.len() && (#[trigger] connections@[k]).owning_pid == p;
                assert(raw[k] == p);
                assert(raw.contains(p));
                assert(sorted@.contains(p));
            }
        }
    }
    out
}

/// The connections of `s` carrying protocol `p`, in order.
pub open spec fn conns_with_protocol(s: Seq<NetworkConnection>, p: Seq<char>) -> Seq<
    NetworkConnection,
>
    decreases s.len(),
{
    if s.len() == 0 {
        Seq::empty()
    } else if s.last().protocol@ == p {
        conns_with_protocol(s.drop_last(), p).push(s.last())
    } else {
        conns_with_protocol(s.drop_last(), p)
    }
}

/// The connections carrying the given protocol, in order.
pub fn filter_connections_by_protocol(connections: &[NetworkConnection], protocol: &str) -> (r:
    Vec<NetworkConnection>)
    ensures
        r@ == conns_with_protocol(connections@, protocol@),
{
    let mut out: Vec<NetworkConnection> = Vec::new();
    let n = connections.len();
    for i in 0..n
        invariant
            n == connections@.len(),
            out@ =~= conns_with_protocol(connections@.take(i as int), protocol@),
    {
        proof {
            assert(connections@.take(i + 1).drop_last() =~= connections@.take(i as int));
            assert(connections@.take(i + 1).last() == connections@[i as int]);
        }
        if crate::types::eq_str(connections[i].protocol.as_str(), protocol) {
            out.push(connections[i].clone());
        }
        assert(out@ =~= conns_with_protocol(connections@.take(i + 1), protocol@));
    }
    assert(connections@.take(n as int) =~= connections@);
    out
}

/// The connections of `s` with an external remote end, in order.
pub open spec fn external_conns(s: Seq<NetworkConnection>) -> Seq<NetworkConnection>
    decreases s.len(),
{
    if s.len() == 0 {
        Seq::empty()
    } else if spec_is_external(s.last().remote_address@) {
        external_conns(s.drop_last()).push(s.last())
    } else {
        external_conns(s.drop_last())
    }
}

/// The connections whose remote end is outside this host, in order.
pub fn filter_external_connections(connections: &[NetworkConnection]) -> (r: Vec<
    NetworkConnection,
>)
    ensures
        r@ == external_conns(connections@),
{
    let mut out: Vec<NetworkConnection> = Vec::new();
    let n = connections.len();
    for i in 0..n
        invariant
            n == connections@.len(),
            out@ =~= external_conns(connections@.take(i as int)),
    {
        proof {
            assert(connections@.take(i + 1).drop_last() =~= connections@.take(i as int));
            assert(connections@.take(i + 1).last() == connections@[i as int]);
        }
        if connections[i].is_external() {
            out.push(connections[i].clone());
        }
        assert(out@ =~= external_conns(connections@.take(i + 1)));
    }
    assert(connections@.take(n as int) =~= connections@);
    out
}

/// Some group in `groups` carries the PID `p`.
pub open spec fn has_group(groups: Seq<(u32, Vec<NetworkConnection>)>, p: u32) -> bool {
    exists|a: int| 0 <= a < groups.len() && (#[trigger] groups[a]).0 == p
}

/// Groups the connections by owning PID.  Each PID appears once; each
/// group holds only connections of its PID; every connection's PID has a
/// group.
pub fn group_connections_by_process(connections: &[NetworkConnection]) -> (r: Vec<
    (u32, Vec<NetworkConnection>),
>)
    ensures
        forall|a: int, b: int| 0 <= a < b < r@.len() ==> (#[trigger] r@[a]).0 != (#[trigger] r@[b]).0,
        forall|a: int, k: int|
            0 <= a < r@.len() && 0 <= k < r@[a].1@.len() ==> (#[trigger] r@[a].1@[k]).owning_pid
                == r@[a].0,
        forall|i: int|
            0 <= i < connections@.len() ==> has_group(r@, (#[trigger] connections@[i]).owning_pid),
{
    let mut groups: Vec<(u32, Vec<NetworkConnection>)> = Vec::new();
    let n = connections.len();
    for i in 0..n
        invariant
            n == connections@.len(),
            forall|a: int, b: int|
                0 <= a < b < groups@.len() ==> (#[trigger] groups@[a]).0 != (
                #[trigger] groups@[b]).0,
            forall|a: int, k: int|
                0 <= a < groups@.len() && 0 <= k < groups@[a].1@.len() ==> (
                #[trigger] groups@[a].1@[k]).owning_pid == groups@[a].0,
            forall|t: int|
                0 <= t < i ==> has_group(groups@, (#[trigger] connections@[t]).owning_pid),
    {
        let pid = connections[i].owning_pid;
        let m = groups.len();
        let mut found: bool = false;
        let mut idx: usize = 0;
        for a in 0..m
            invariant
                m == groups@.len(),
                found ==> idx < m && groups@[idx as int].0 == pid,
                !found ==> forall|b: int| 0 <= b < a ==> (#[trigger] groups@[b]).0 != pid,
        {
            if groups[a].0 == pid {
                found = true;
                idx = a;
            }
        }
        if found {
            let ghost pre = groups@;
            let pair = groups.remove(idx);
            let gp = pair.0;
            let mut v = pair.1;
            v.push(connections[i].clone());
            groups.push((gp, v));
            proof {
                assert forall|p: u32| has_group(pre, p) implies has_group(groups@, p) by {
                    let a0 = choose|a: int| 0 <= a < pre.len() && (#[trigger] pre[a]).0 == p;
                    if a0 == idx {
                        assert(groups@[groups@.len() - 1].0 == p);
                    } else if a0 < idx {
                        assert(groups@[a0].0 == p);
                    } else {
                        assert(groups@[a0 - 1].0 == p);
                    }
                }
                assert(groups@[groups@.len() - 1].0 == pid);
                assert(has_group(groups@, pid));
            }
        } else {
            let ghost pre = groups@;
            let mut v: Vec<NetworkConnection> = Vec::new();
            v.push(connections[i].clone());
            groups.push((pid, v));
            proof {
                assert forall|p: u32| has_group(pre, p) implies has_group(groups@, p) by {
                    let a0 = choose|a: int| 0 <= a < pre.len() && (#[trigger] pre[a]).0 == p;
                    assert(groups@[a0].0 == p);
                }
                assert(groups@[groups@.len() - 1].0 == pid);
                assert(has_group(groups@, pid));
            }
        }
    }
    groups
}

/// Counts the connections with an external remote end.
pub fn count_external(conns: &Vec<NetworkConnection>) -> (r: usize)
    ensures
        r == spec_external_count(conns@),
{
    let n = conns.len();
    let mut count: usize = 0;
    for i in 0..n
        invariant
            n == conns@.len(),
            count == spec_external_count(conns@.take(i as int)),
            count <= i,
    {
        proof {
            assert(conns@.take(i + 1).drop_last() =~= conns@.take(i as int));
            assert(conns@.take(i + 1).last() == conns@[i as int]);
        }
        if conns[i].is_external() {
            count = count + 1;
        }
    }
    assert(conns@.take(n as int) =~= conns@);
    count
}

} // verus!

