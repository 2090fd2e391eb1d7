//! What the popup shows of each connection: the rows of its detail panel, the
//! controls of its list row, and how long each connected tunnel has been up.
use vstd::prelude::*;

use crate::model::{
    format_bytes, format_bytes_spec, format_duration, format_duration_spec, format_last_used,
    format_last_used_spec, opt_view, status_active, toggle_action, ToggleAction, VpnConnection,
    VpnStatus,
};
use crate::nm::{clone_opt_string, join_spec, join_strings};
use crate::text::{chars_eq, chars_of, push_all, push_str, string_from, string_views};

verus! {

/// A row of a connection's detail panel.
#[derive(Debug, Clone, Copy, PartialEq, Eq, Structural)]
pub enum DetailRow {
    /// Protocol label.
    Type,
    /// Gateway / remote endpoint.
    Gateway,
    /// Assigned IPv4 address.
    Ipv4,
    /// Assigned IPv6 address.
    Ipv6,
    /// DNS servers in use.
    Dns,
    /// Bytes received, with the current rate.
    Received,
    /// Bytes sent, with the current rate.
    Sent,
    /// How long the connection has been up.
    Duration,
    /// When the connection was last used.
    LastUsed,
}

/// A byte total with its rate: `1.5 MB (2.0 KB/s)`.
pub open spec fn traffic_text(total: u64, rate: u64) -> Seq<char> {
    format_bytes_spec(total as nat) + " ("@ + format_bytes_spec(rate as nat) + "/s)"@
}

/// `rows` with `(row, text)` appended when `text` is present.
pub open spec fn push_opt(
    rows: Seq<(DetailRow, Seq<char>)>,
    row: DetailRow,
    text: Option<Seq<char>>,
) -> Seq<(DetailRow, Seq<char>)> {
    match text {
        Some(t) => rows.push((row, t)),
        None => rows,
    }
}

/// The detail rows of a connection, in order: its type; its gateway, addresses and DNS
/// servers when known; traffic (with the rates, zero when unknown) while connected
/// with any bytes counted; then how long it has been up, or else when it was last
/// used, if ever.
pub open spec fn detail_rows_spec(
    c: VpnConnection,
    rates: Option<(u64, u64)>,
    connected_for: Option<u64>,
    now: u64,
) -> Seq<(DetailRow, Seq<char>)> {
    let r0 = seq![(DetailRow::Type, c.type_label@)];
    let r1 = push_opt(r0, DetailRow::Gateway, opt_view(c.gateway));
    let r2 = push_opt(r1, DetailRow::Ipv4, opt_view(c.ip4));
    let r3 = push_opt(r2, DetailRow::Ipv6, opt_view(c.ip6));
    let r4 = if c.dns_servers@.len() > 0 {
        r3.push((DetailRow::Dns, join_spec(string_views(c.dns_servers@), ", "@)))
    } else {
        r3
    };
    let (down, up) = match rates {
        Some(r) => r,
        None => (0u64, 0u64),
    };
    let r5 = if c.status == VpnStatus::Connected && (c.rx_bytes > 0 || c.tx_bytes > 0) {
        r4.push((DetailRow::Received, traffic_text(c.rx_bytes, down))).push(
            (DetailRow::Sent, traffic_text(c.tx_bytes, up)),
        )
    } else {
        r4
    };
    match connected_for {
        Some(s) => r5.push((DetailRow::Duration, format_duration_spec(s as nat))),
        None => push_opt(
            r5,
            DetailRow::LastUsed,
            format_last_used_spec(c.last_used as nat, now as nat),
        ),
    }
}

/// The views of detail rows.
pub open spec fn row_views(v: Seq<(DetailRow, String)>) -> Seq<(DetailRow, Seq<char>)> {
    v.map_values(|p: (DetailRow, String)| (p.0, p.1@))
}

fn push_row(rows: &mut Vec<(DetailRow, String)>, row: DetailRow, text: String)
    ensures
        row_views(final(rows)@) == row_views(old(rows)@).push((row, text@)),
{
    let ghost before = row_views(rows@);
    let ghost t = text@;
    rows.push((row, text));
    assert(row_views(rows@) =~= before.push((row, t)));
}

fn traffic(total: u64, rate: u64) -> (r: String)
    ensures
        r@ == traffic_text(total, rate),
{
    let mut out = chars_of(format_bytes(total).as_str());
    push_str(&mut out, " (");
    let rv = chars_of(format_bytes(rate).as_str());
    push_all(&mut out, &rv);
    push_str(&mut out, "/s)");
    string_from(&out)
}

/// The rows of a connection's detail panel. `rates` holds the measured receive and
/// send rates (bytes per second), `connected_for` the seconds it has been up (when it
/// is connected), `now` the time in Unix seconds.
pub fn detail_rows(
    c: &VpnConnection,
    rates: Option<(u64, u64)>,
    connected_for: Option<u64>,
    now: u64,
) -> (r: Vec<(DetailRow, String)>)
    ensures
        row_views(r@) == detail_rows_spec(*c, rates, connected_for, now),
{
    let mut rows: Vec<(DetailRow, String)> = Vec::new();
    assert(row_views(rows@) =~= Seq::<(DetailRow, Seq<char>)>::empty());
    push_row(&mut rows, DetailRow::Type, c.type_label.clone());
    assert(row_views(rows@) =~= seq![(DetailRow::Type, c.type_label@)]);
    match clone_opt_string(&c.gateway) {
        Some(g) => push_row(&mut rows, DetailRow::Gateway, g),
        None => {},
    }
    match clone_opt_string(&c.ip4) {
        Some(a) => push_row(&mut rows, DetailRow::Ipv4, a),
        None => {},
    }
    match clone_opt_string(&c.ip6) {
        Some(a) => push_row(&mut rows, DetailRow::Ipv6, a),
        None => {},
    }
    if c.dns_servers.len() > 0 {
        push_row(&mut rows, DetailRow::Dns, join_strings(&c.dns_servers, ", "));
    }
    let (down, up) = match rates {
        Some(r) => r,
        None => (0u64, 0u64),
    };
    if c.status == VpnStatus::Connected && (c.rx_bytes > 0 || c.tx_bytes > 0) {
        push_row(&mut rows, DetailRow::Received, traffic(c.rx_bytes, down));
        push_row(&mut rows, DetailRow::Sent, traffic(c.tx_bytes, up));
    }
    match connected_for {
        Some(s) => push_row(&mut rows, DetailRow::Duration, format_duration(s)),
        None => match format_last_used(c.last_used, now) {
            Some(t) => push_row(&mut rows, DetailRow::LastUsed, t),
            None => {},
        },
    }
    rows
}

/// The controls of a connection's list row.
pub struct RowView {
    /// A spinner in place of the status label while an operation is pending.
    pub busy: bool,
    /// What pressing the row does; nothing while pending.
    pub press: Option<ToggleAction>,
    /// The icon of the expand button.
    pub chevron: &'static str,
}

/// The list row of a connection with this status: busy and inert while pending, else
/// toggling it; the chevron points up while its detail panel is expanded.
pub fn connection_row(status: VpnStatus, pending: bool, expanded: bool) -> (r: RowView)
    ensures
        r.busy == pending,
        r.press == (if pending {
            None
        } else if status_active(status) {
            Some(ToggleAction::Deactivate)
        } else {
            Some(ToggleAction::Activate)
        }),
        r.chevron@ == (if expanded {
            "go-up-symbolic"@
        } else {
            "go-down-symbolic"@
        }),
{
    let press = if pending {
        None
    } else {
        Some(toggle_action(status))
    };
    let chevron = if expanded {
        "go-up-symbolic"
    } else {
        "go-down-symbolic"
    };
    RowView { busy: pending, press, chevron }
}

/// The start time recorded for a UUID: that of its first entry.
pub open spec fn start_of(since: Seq<(String, u64)>, uuid: Seq<char>) -> Option<u64>
    decreases since.len(),
{
    if since.len() == 0 {
        None
    } else if since[0].0@ == uuid {
        Some(since[0].1)
    } else {
        start_of(since.drop_first(), uuid)
    }
}

/// Whether some connection in the list has this UUID and is connected.
pub open spec fn is_connected_uuid(conns: Seq<VpnConnection>, uuid: Seq<char>) -> bool {
    exists|i: int|
        0 <= i < conns.len() && conns[i].status == VpnStatus::Connected && #[trigger] conns[i].uuid@
            == uuid
}

/// The UUIDs of a start-time table.
pub open spec fn uuids_of(since: Seq<(String, u64)>) -> Seq<Seq<char>> {
    since.map_values(|p: (String, u64)| p.0@)
}

fn find_start(since: &Vec<(String, u64)>, uuid: &String) -> (r: Option<u64>)
    ensures
        r == start_of(since@, uuid@),
{
    let u = chars_of(uuid.as_str());
    let mut i: usize = 0;
    assert(since@.skip(0) =~= since@);
    while i < since.len()
        invariant
            i <= since@.len(),
            u@ == uuid@,
            start_of(since@, uuid@) == start_of(since@.skip(i as int), uuid@),
        decreases since.len() - i,
    {
        assert(since@.skip(i as int)[0] == since@[i as int]);
        let k = chars_of(since[i].0.as_str());
        if chars_eq(&k, &u) {
            return Some(since[i].1);
        }
        assert(since@.skip(i as int).drop_first() =~= since@.skip(i + 1));
        i += 1;
    }
    None
}

/// The start times after a refresh: one entry per connected UUID, keeping the time it
/// was first seen connected (`now` for one that has just come up); UUIDs no longer
/// connected are dropped.
pub fn update_connected_since(
    since: &Vec<(String, u64)>,
    connections: &Vec<VpnConnection>,
    now: u64,
) -> (r: Vec<(String, u64)>)
    ensures
        uuids_of(r@).no_duplicates(),
        forall|u: Seq<char>| #[trigger] uuids_of(r@).contains(u) <==> is_connected_uuid(connections@, u),
        forall|i: int|
            0 <= i < r@.len() ==> (#[trigger] r@[i]).1 == (match start_of(since@, r@[i].0@) {
                Some(t) => t,
                None => now,
            }),
{
    let mut out: Vec<(String, u64)> = Vec::new();
    let mut i: usize = 0;
    while i < connections.len()
        invariant
            i <= connections@.len(),
            uuids_of(out@).no_duplicates(),
            forall|u: Seq<char>| #[trigger] uuids_of(out@).contains(u) <==> is_connected_uuid(
                connections@.take(i as int),
                u,
            ),
            forall|j: int|
                0 <= j < out@.len() ==> (#[trigger] out@[j]).1 == (match start_of(
                    since@,
                    out@[j].0@,
                ) {
                    Some(t) => t,
                    None => now,
                }),
        decreases connections.len() - i,
    {
        let ghost pre = connections@.take(i as int);
        let ghost post = connections@.take(i + 1);
        let c = &connections[i];
        assert(post[i as int] == connections@[i as int]);
        assert forall|u: Seq<char>| is_connected_uuid(pre, u) implies is_connected_uuid(post, u) by {
            let k = choose|k: int|
                0 <= k < pre.len() && pre[k].status == VpnStatus::Connected && #[trigger] pre[k].uuid@
                    == u;
            assert(post[k] == pre[k]);
        }
        if c.status == VpnStatus::Connected {
            let u = chars_of(c.uuid.as_str());
            let mut seen = false;
            let mut j: usize = 0;
            while j < out.len()
                invariant
                    j <= out@.len(),
                    u@ == c.uuid@,
                    seen == exists|k: int| 0 <= k < j && #[trigger] out@[k].0@ == u@,
                decreases out.len() - j,
            {
                let k = chars_of(out[j].0.as_str());
                if chars_eq(&k, &u) {
                    seen = true;
                }
                j += 1;
            }
            if !seen {
                let t = match find_start(since, &c.uuid) {
                    Some(t) => t,
                    None => now,
                };
                let ghost before = out@;
                out.push((c.uuid.clone(), t));
                proof {
                    assert(uuids_of(out@) =~= uuids_of(before).push(c.uuid@));
                    assert forall|a: int, b: int|
                        0 <= a < b < uuids_of(out@).len() implies uuids_of(out@)[a] != uuids_of(
                        out@,
                    )[b] by {
                        if b == before.len() {
                            assert(uuids_of(out@)[a] == before[a].0@);
                        } else {
                            assert(uuids_of(before)[a] != uuids_of(before)[b]);
                        }
                    }
                    assert forall|v: Seq<char>| #[trigger] uuids_of(out@).contains(v)
                        <==> is_connected_uuid(post, v) by {
                        if uuids_of(out@).contains(v) && v != c.uuid@ {
                            let k = choose|k: int| 0 <= k < uuids_of(out@).len() && uuids_of(out@)[k] == v;
                            assert(uuids_of(before)[k] == v);
                            assert(uuids_of(before).contains(v));
                        }
                        if is_connected_uuid(post, v) && v != c.uuid@ {
                            let k = choose|k: int|
                                0 <= k < post.len() && post[k].status == VpnStatus::Connected
                                    && #[trigger] post[k].uuid@ == v;
                            assert(pre[k] == post[k]);
                            assert(is_connected_uuid(pre, v));
                            assert(uuids_of(before).contains(v));
                            let m = choose|m: int| 0 <= m < uuids_of(before).len() && uuids_of(before)[m] == v;
                            assert(uuids_of(out@)[m] == v);
                        }
                        if v == c.uuid@ {
                            assert(uuids_of(out@)[before.len() as int] == v);
                        }
                    }
                }
            } else {
                proof {
                    let k = choose|k: int| 0 <= k < out@.len() && #[trigger] out@[k].0@ == u@;
                    assert(uuids_of(out@)[k] == c.uuid@);
                    assert forall|v: Seq<char>| #[trigger] uuids_of(out@).contains(v)
                        <==> is_connected_uuid(post, v) by {
                        if is_connected_uuid(post, v) && v != c.uuid@ {
                            let k2 = choose|k2: int|
                                0 <= k2 < post.len() && post[k2].status == VpnStatus::Connected
                                    && #[trigger] post[k2].uuid@ == v;
                            assert(pre[k2] == post[k2]);
                        }
                    }
                }
            }
        } else {
            assert forall|v: Seq<char>| #[trigger] uuids_of(out@).contains(v) <==> is_connected_uuid(
                post,
                v,
            ) by {
                if is_connected_uuid(post, v) {
                    let k2 = choose|k2: int|
                        0 <= k2 < post.len() && post[k2].status == VpnStatus::Connected
                            && #[trigger] post[k2].uuid@ == v;
                    assert(k2 != i);
                    assert(pre[k2] == post[k2]);
                }
            }
        }
        i += 1;
    }
    assert(connections@.take(connections@.len() as int) =~= connections@);
    out
}

/// How long a connection has been up, in whole seconds, from its recorded start time
/// (nanoseconds on the same monotonic clock as `now`); `None` when none is recorded.
pub fn connected_for(since: &Vec<(String, u64)>, uuid: &String, now: u64) -> (r: Option<u64>)
    ensures
        r == (match start_of(since@, uuid@) {
            Some(t) => Some((if now >= t {
                (now - t) as u64
            } else {
                0u64
            }) / 1_000_000_000),
            None => None,
        }),
{
    match find_start(since, uuid) {
        Some(t) => Some(now.saturating_sub(t) / 1_000_000_000),
        None => None,
    }
}

} // verus!
