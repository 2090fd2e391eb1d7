//! Properties that span several functions of the library: what a round trip through
//! the editor keeps, when a refresh stays silent, what sorting twice gives, and which
//! readings of the same input agree.
use vstd::prelude::*;

use crate::applet::{previous_status, string_set, transition_of, transitions_spec};
use crate::editor::{
    data_value_spec, key_differs, set_data_spec, signed_decimal, vpn_editor_spec, vpn_save_spec,
    wireguard_editor_spec, wireguard_save_spec, Editor,
};
use crate::detail::{
    detail_rows_spec, is_connected_uuid, push_opt, start_of, traffic_text, uuids_of, DetailRow,
};
use crate::vpn_auth::{name_file_fold, pair_views, parse_plugin_spec, plugin_fold};
use crate::model::{
    conn_key_fn, display_sorted, lemma_key_total, positive_u32_field, stable_permutation, NewVpn,
    NewWireGuard, VpnConnection, VpnEdit, WgEdit,
};
use crate::enums::{enum_table, plugin_short_name};
use crate::nm::{positive_text, status_from_spec, DeviceState};
use crate::applet::Notice;
use crate::model::{format_duration_spec, format_last_used_spec, opt_view, VpnStatus};
use crate::nm::join_spec;
use crate::text::string_views;
use crate::text::{
    all_digits, decimal, digit_char, digits_value, is_ws, lemma_split_by_nonempty, parse_i32_spec,
    lines, parse_u32_spec, split_by, trim, trim_end, trim_start, two_digits,
};
use vstd::arithmetic::div_mod::{
    lemma_fundamental_div_mod_converse_div, lemma_fundamental_div_mod_converse_mod,
};

verus! {

proof fn lemma_decimal_digits(n: nat)
    ensures
        decimal(n).len() > 0,
        all_digits(decimal(n)),
        digits_value(decimal(n)) == n,
    decreases n,
{
    let c = digit_char(n % 10);
    assert((c as u32) == 48 + n % 10);
    if n < 10 {
        let s = decimal(n);
        assert(s.drop_last() =~= Seq::<char>::empty());
        assert(s.last() == c);
        assert(digits_value(s) == digits_value(s.drop_last()) * 10 + ((s.last() as u32) - 48) as nat);
    } else {
        lemma_decimal_digits(n / 10);
        let d = decimal(n / 10);
        let s = decimal(n);
        assert(s == d.push(c));
        assert(s.drop_last() =~= d);
        assert forall|i: int| 0 <= i < s.len() implies '0' <= #[trigger] s[i] <= '9' by {
            if i < d.len() {
                assert(s[i] == d[i]);
            }
        }
        assert(digits_value(s) == digits_value(s.drop_last()) * 10 + ((s.last() as u32) - 48) as nat);
        assert(n == (n / 10) * 10 + n % 10);
    }
}

proof fn lemma_digit_not_ws(c: char)
    requires
        '0' <= c <= '9',
    ensures
        !is_ws(c),
{
}

/// A text with no whitespace at either end is its own trim.
proof fn lemma_trim_fixed(s: Seq<char>)
    requires
        s.len() > 0,
        !is_ws(s[0]),
        !is_ws(s.last()),
    ensures
        trim(s) == s,
{
    assert(trim_start(s) == s);
    assert(trim_end(s) == s);
}

/// The decimal text of a number is its own trim.
proof fn lemma_trim_decimal(n: nat)
    ensures
        trim(decimal(n)) == decimal(n),
{
    lemma_decimal_digits(n);
    let s = decimal(n);
    lemma_digit_not_ws(s[0]);
    lemma_digit_not_ws(s[s.len() - 1]);
    lemma_trim_fixed(s);
}

proof fn lemma_signed_decimal_parses(n: i32)
    ensures
        trim(signed_decimal(n as int)) == signed_decimal(n as int),
        parse_i32_spec(signed_decimal(n as int)) == Some(n),
{
    if n < 0 {
        let m: nat = (0 - n) as nat;
        lemma_decimal_digits(m);
        let d = decimal(m);
        let s = signed_decimal(n as int);
        assert(s == seq!['-'] + d);
        assert(s.drop_first() =~= d);
        assert(s[0] == '-');
        assert(s.last() == d.last());
        lemma_digit_not_ws(d[d.len() - 1]);
        lemma_trim_fixed(s);
        assert(m <= 0x8000_0000);
    } else {
        lemma_decimal_digits(n as nat);
        lemma_trim_decimal(n as nat);
        let s = decimal(n as nat);
        assert('0' <= s[0] <= '9');
    }
}

/// A positive number shown as text (an MTU or a keepalive in the editor) parses back
/// to itself; none, or zero, is shown blank and parses back to none.
pub proof fn law_positive_text_round_trip(n: Option<u32>)
    ensures
        trim(positive_text(n)) == positive_text(n),
        positive_u32_field(positive_text(n)) == (match n {
            Some(v) => if v > 0 {
                Some(v)
            } else {
                None
            },
            None => None,
        }),
{
    match n {
        Some(v) => {
            if v > 0 {
                lemma_decimal_digits(v as nat);
                lemma_trim_decimal(v as nat);
                let s = decimal(v as nat);
                assert('0' <= s[0] <= '9');
                assert(parse_u32_spec(s) == Some(v));
            } else {
                assert(trim_start(Seq::<char>::empty()) == Seq::<char>::empty());
                assert(trim_end(Seq::<char>::empty()) == Seq::<char>::empty());
            }
        },
        None => {
            assert(trim_start(Seq::<char>::empty()) == Seq::<char>::empty());
            assert(trim_end(Seq::<char>::empty()) == Seq::<char>::empty());
        },
    }
}

/// A plugin VPN read into the editor and saved unchanged is written back as it was
/// read: the same type, switches, priority, metered mode and `vpn.data`, its text
/// fields trimmed.
pub proof fn law_vpn_edit_round_trip(uuid: String, edit: VpnEdit, e: Editor, saved: NewVpn)
    requires
        vpn_editor_spec(e, uuid, edit),
        vpn_save_spec(saved, e, edit.service_type),
    ensures
        saved.name@ == trim(edit.name@),
        saved.service_type == edit.service_type,
        saved.autoconnect == edit.autoconnect,
        saved.autoconnect_priority == edit.autoconnect_priority,
        saved.metered == edit.metered,
        saved.zone@ == trim(edit.zone@),
        saved.never_default == edit.never_default,
        saved.dns_search@ == trim(edit.dns_search@),
        saved.dns@ == trim(edit.dns@),
        saved.data@ == edit.data@,
{
    lemma_signed_decimal_parses(edit.autoconnect_priority);
}

/// A WireGuard tunnel with at least one peer, read into the editor and saved
/// unchanged, is written back as it was read: the same switch, interface fields and
/// peers, each text field trimmed (the allowed IPs as they were).
pub proof fn law_wireguard_edit_round_trip(
    uuid: String,
    edit: WgEdit,
    e: Editor,
    saved: NewWireGuard,
)
    requires
        wireguard_editor_spec(e, uuid, edit),
        wireguard_save_spec(saved, e),
        edit.peers@.len() > 0,
    ensures
        saved.name@ == trim(edit.name@),
        saved.autoconnect == edit.autoconnect,
        saved.private_key@ == trim(edit.private_key@),
        saved.address@ == trim(edit.address@),
        saved.dns@ == trim(edit.dns@),
        saved.mtu@ == trim(edit.mtu@),
        saved.peers@.len() == edit.peers@.len(),
        forall|i: int|
            0 <= i < saved.peers@.len() ==> {
                let p = #[trigger] saved.peers@[i];
                let q = edit.peers@[i];
                &&& p.public_key@ == trim(q.public_key@)
                &&& p.endpoint@ == trim(q.endpoint@)
                &&& p.allowed_ips@ == q.allowed_ips@
                &&& p.preshared_key@ == trim(q.preshared_key@)
                &&& p.persistent_keepalive@ == trim(q.persistent_keepalive@)
            },
{
    assert forall|i: int| 0 <= i < saved.peers@.len() implies {
        let p = #[trigger] saved.peers@[i];
        let q = edit.peers@[i];
        &&& p.public_key@ == trim(q.public_key@)
        &&& p.endpoint@ == trim(q.endpoint@)
        &&& p.allowed_ips@ == q.allowed_ips@
        &&& p.preshared_key@ == trim(q.preshared_key@)
        &&& p.persistent_keepalive@ == trim(q.persistent_keepalive@)
    } by {
        assert(crate::editor::row_of_peer(e.wg_peers@[i], edit.peers@[i]));
        assert(crate::editor::peer_spec_of(saved.peers@[i], e.wg_peers@[i]));
    }
}

/// A refresh notifies nothing for connections whose status is what it was, nor for
/// connections it had not seen before.
pub proof fn law_unchanged_statuses_are_silent(old: Seq<VpnConnection>, new: Seq<VpnConnection>)
    requires
        forall|i: int|
            0 <= i < new.len() ==> match previous_status(old, (#[trigger] new[i]).uuid@) {
                Some(was) => was == new[i].status,
                None => true,
            },
    ensures
        transitions_spec(old, new).len() == 0,
    decreases new.len(),
{
    if new.len() > 0 {
        let init = new.drop_last();
        assert forall|i: int| 0 <= i < init.len() implies match previous_status(
            old,
            (#[trigger] init[i]).uuid@,
        ) {
            Some(was) => was == init[i].status,
            None => true,
        } by {
            assert(init[i] == new[i]);
        }
        law_unchanged_statuses_are_silent(old, init);
        assert(new.last() == new[new.len() - 1]);
        assert(transition_of(old, new.last()) is None);
    }
}

/// No two connections share a UUID.
pub open spec fn distinct_uuids(s: Seq<VpnConnection>) -> bool {
    forall|i: int, j: int| 0 <= i < j < s.len() ==> (#[trigger] s[i]).uuid@ != (#[trigger] s[j]).uuid@
}

proof fn lemma_previous_status_own(s: Seq<VpnConnection>, i: int)
    requires
        distinct_uuids(s),
        0 <= i < s.len(),
    ensures
        previous_status(s, s[i].uuid@) == Some(s[i].status),
    decreases s.len(),
{
    if i < s.len() - 1 {
        let init = s.drop_last();
        assert(s.last() == s[s.len() - 1]);
        assert(s[i].uuid@ != s[s.len() - 1].uuid@);
        assert(init[i] == s[i]);
        assert forall|a: int, b: int| 0 <= a < b < init.len() implies (#[trigger] init[a]).uuid@
            != (#[trigger] init[b]).uuid@ by {
            assert(init[a] == s[a]);
            assert(init[b] == s[b]);
        }
        lemma_previous_status_own(init, i);
    }
}

/// Refreshing to the same list of connections (UUIDs being unique, as NetworkManager
/// keeps them) notifies nothing.
pub proof fn law_steady_refresh_is_silent(s: Seq<VpnConnection>)
    requires
        distinct_uuids(s),
    ensures
        transitions_spec(s, s).len() == 0,
{
    assert forall|i: int| 0 <= i < s.len() implies match previous_status(
        s,
        (#[trigger] s[i]).uuid@,
    ) {
        Some(was) => was == s[i].status,
        None => true,
    } by {
        lemma_previous_status_own(s, i);
    }
    law_unchanged_statuses_are_silent(s, s);
}

/// An operation started on a connection that was not pending, once finished, leaves
/// the pending set as it was.
pub proof fn law_finished_operation_clears_pending(
    before: Seq<String>,
    started: Seq<String>,
    finished: Seq<String>,
    uuid: String,
)
    requires
        !string_set(before).contains(uuid@),
        string_set(started) == string_set(before).insert(uuid@),
        string_set(finished) == string_set(started).remove(uuid@),
    ensures
        string_set(finished) == string_set(before),
{
    assert(string_set(finished) =~= string_set(before));
}

/// A one-to-one, strictly increasing map of `0..n` into `0..n` is the identity.
proof fn lemma_increasing_is_identity(p: Seq<int>, n: int)
    requires
        p.len() == n,
        forall|t: int| 0 <= t < n ==> 0 <= #[trigger] p[t] < n,
        forall|a: int, b: int| 0 <= a < b < n ==> #[trigger] p[a] < #[trigger] p[b],
    ensures
        forall|t: int| 0 <= t < n ==> #[trigger] p[t] == t,
{
    assert forall|t: int| 0 <= t < n implies #[trigger] p[t] == t by {
        lemma_increasing_lower(p, n, t);
        lemma_increasing_upper(p, n, t);
    }
}

proof fn lemma_increasing_lower(p: Seq<int>, n: int, t: int)
    requires
        p.len() == n,
        0 <= t < n,
        forall|u: int| 0 <= u < n ==> 0 <= #[trigger] p[u] < n,
        forall|a: int, b: int| 0 <= a < b < n ==> #[trigger] p[a] < #[trigger] p[b],
    ensures
        p[t] >= t,
    decreases t,
{
    if t > 0 {
        lemma_increasing_lower(p, n, t - 1);
        assert(p[t - 1] < p[t]);
    }
}

proof fn lemma_increasing_upper(p: Seq<int>, n: int, t: int)
    requires
        p.len() == n,
        0 <= t < n,
        forall|u: int| 0 <= u < n ==> 0 <= #[trigger] p[u] < n,
        forall|a: int, b: int| 0 <= a < b < n ==> #[trigger] p[a] < #[trigger] p[b],
    ensures
        p[t] <= t,
    decreases n - t,
{
    if t < n - 1 {
        lemma_increasing_upper(p, n, t + 1);
        assert(p[t] < p[t + 1]);
    }
}

/// Sorting a list that is already in display order leaves it as it is (so sorting
/// twice gives what sorting once gives): the display order and its stability fix the
/// result.
pub proof fn law_sorting_a_sorted_list_keeps_it(
    before: Seq<VpnConnection>,
    after: Seq<VpnConnection>,
    p: Seq<int>,
)
    requires
        display_sorted(before),
        display_sorted(after),
        stable_permutation(before, after, p),
    ensures
        after == before,
{
    let n = p.len() as int;
    let kf = conn_key_fn();
    assert forall|a: int, b: int| 0 <= a < b < n implies #[trigger] p[a] < #[trigger] p[b] by {
        if p[a] > p[b] {
            assert(!crate::model::key_lt(kf(after[b]), kf(after[a])));
            assert(after[a] == before[p[a]]);
            assert(after[b] == before[p[b]]);
            assert(!crate::model::key_lt(kf(before[p[a]]), kf(before[p[b]])));
            lemma_key_total(kf(after[a]), kf(after[b]));
        }
        assert(p[a] != p[b]);
    }
    lemma_increasing_is_identity(p, n);
    assert forall|t: int| 0 <= t < after.len() implies after[t] == before[t] by {
        assert(after[t] == before[p[t]]);
    }
    assert(after =~= before);
}

/// Appending text without separators extends the last piece of a split.
proof fn lemma_split_by_extend(u: Seq<char>, t: Seq<char>, seps: Seq<char>)
    requires
        forall|i: int| 0 <= i < t.len() ==> !seps.contains(#[trigger] t[i]),
    ensures
        split_by(u + t, seps).len() == split_by(u, seps).len(),
        split_by(u + t, seps).last() == split_by(u, seps).last() + t,
    decreases t.len(),
{
    lemma_split_by_nonempty(u, seps);
    if t.len() == 0 {
        assert(u + t =~= u);
        assert(split_by(u, seps).last() + t =~= split_by(u, seps).last());
    } else {
        let init = t.drop_last();
        lemma_split_by_extend(u, init, seps);
        lemma_split_by_nonempty(u + init, seps);
        let s = u + t;
        assert(s.drop_last() =~= u + init);
        assert(s.last() == t.last());
        assert(!seps.contains(t[t.len() - 1]));
        assert(split_by(u, seps).last() + t =~= (split_by(u, seps).last() + init).push(t.last()));
    }
}

/// A plugin's full service type (`org.freedesktop.NetworkManager.openvpn`) and its bare
/// name (`openvpn`) name the same plugin, so they offer the same closed value lists.
pub proof fn law_full_and_bare_service_types_agree(prefix: Seq<char>, name: Seq<char>, key: Seq<char>)
    requires
        !name.contains('.'),
    ensures
        plugin_short_name(prefix + seq!['.'] + name) == name,
        plugin_short_name(name) == name,
        enum_table(plugin_short_name(prefix + seq!['.'] + name), key) == enum_table(
            plugin_short_name(name),
            key,
        ),
{
    let dot = seq!['.'];
    assert forall|i: int| 0 <= i < name.len() implies !dot.contains(#[trigger] name[i]) by {
        if dot.contains(name[i]) {
            assert(dot[0] == '.');
            assert(name.contains('.'));
        }
    }
    let head = prefix.push('.');
    lemma_split_by_nonempty(prefix, dot);
    assert(head.drop_last() =~= prefix);
    assert(dot.contains(head.last())) by {
        assert(dot[0] == head.last());
    }
    assert(split_by(head, dot).last() =~= Seq::<char>::empty());
    lemma_split_by_extend(head, name, dot);
    assert(prefix + dot + name =~= head + name);
    assert(Seq::<char>::empty() + name =~= name);
    lemma_split_by_extend(Seq::<char>::empty(), name, dot);
    assert(Seq::<char>::empty() + name =~= name);
}

/// The value of the first pair with key `key`, or empty.
spec fn first_value(pv: Seq<(Seq<char>, Seq<char>)>, key: Seq<char>) -> Seq<char>
    decreases pv.len(),
{
    if pv.len() == 0 {
        Seq::empty()
    } else if pv[0].0 == key {
        pv[0].1
    } else {
        first_value(pv.drop_first(), key)
    }
}

proof fn lemma_data_value_views(d: Seq<(String, String)>, key: Seq<char>)
    ensures
        data_value_spec(d, key) == first_value(pair_views(d), key),
    decreases d.len(),
{
    if d.len() > 0 {
        assert(pair_views(d).drop_first() =~= pair_views(d.drop_first()));
        lemma_data_value_views(d.drop_first(), key);
    }
}

proof fn lemma_first_value_skip(
    a: Seq<(Seq<char>, Seq<char>)>,
    b: Seq<(Seq<char>, Seq<char>)>,
    key: Seq<char>,
)
    requires
        forall|i: int| 0 <= i < a.len() ==> (#[trigger] a[i]).0 != key,
    ensures
        first_value(a + b, key) == first_value(b, key),
    decreases a.len(),
{
    if a.len() > 0 {
        assert((a + b)[0] == a[0]);
        assert((a + b).drop_first() =~= a.drop_first() + b);
        assert forall|i: int| 0 <= i < a.drop_first().len() implies (#[trigger] a.drop_first()[i]).0
            != key by {
            assert(a.drop_first()[i] == a[i + 1]);
        }
        lemma_first_value_skip(a.drop_first(), b, key);
    } else {
        assert(a + b =~= b);
    }
}

/// After the editor sets a `vpn.data` key, reading that key gives back the value set
/// (an empty value removes the key, and an absent key reads as empty).
pub proof fn law_set_data_then_read(
    data: Seq<(String, String)>,
    after: Seq<(String, String)>,
    key: Seq<char>,
    value: Seq<char>,
)
    requires
        pair_views(after) == set_data_spec(pair_views(data), key, value),
    ensures
        data_value_spec(after, key) == value,
{
    lemma_data_value_views(after, key);
    let pred = key_differs(key);
    let kept = pair_views(data).filter(pred);
    let tail: Seq<(Seq<char>, Seq<char>)> = if value.len() > 0 {
        seq![(key, value)]
    } else {
        Seq::empty()
    };
    assert(pair_views(after) == kept + tail);
    assert forall|i: int| 0 <= i < kept.len() implies (#[trigger] kept[i]).0 != key by {
        pair_views(data).lemma_filter_pred(pred, i);
    }
    lemma_first_value_skip(kept, tail, key);
    if value.len() > 0 {
        assert(tail[0] == (key, value));
    } else {
        assert(value =~= Seq::<char>::empty());
    }
}

proof fn lemma_start_of_some(since: Seq<(String, u64)>, uuid: Seq<char>)
    ensures
        start_of(since, uuid) is Some <==> uuids_of(since).contains(uuid),
    decreases since.len(),
{
    if since.len() > 0 {
        lemma_start_of_some(since.drop_first(), uuid);
        assert(uuids_of(since.drop_first()) =~= uuids_of(since).drop_first());
        if uuids_of(since).contains(uuid) && since[0].0@ != uuid {
            let k = choose|k: int| 0 <= k < uuids_of(since).len() && uuids_of(since)[k] == uuid;
            assert(k != 0);
            assert(uuids_of(since).drop_first()[k - 1] == uuid);
        }
        if since[0].0@ == uuid {
            assert(uuids_of(since)[0] == uuid);
        }
        if uuids_of(since.drop_first()).contains(uuid) {
            let k = choose|k: int|
                0 <= k < uuids_of(since.drop_first()).len() && uuids_of(since.drop_first())[k]
                    == uuid;
            assert(uuids_of(since)[k + 1] == uuid);
        }
    }
}

/// After a refresh, a connection has a recorded start time (so the detail panel shows
/// how long it has been up) exactly when it is connected.
pub proof fn law_duration_shown_only_while_connected(
    connections: Seq<VpnConnection>,
    after: Seq<(String, u64)>,
    uuid: Seq<char>,
)
    requires
        forall|u: Seq<char>| #[trigger] uuids_of(after).contains(u) <==> is_connected_uuid(connections, u),
    ensures
        start_of(after, uuid) is Some <==> is_connected_uuid(connections, uuid),
{
    lemma_start_of_some(after, uuid);
}

proof fn lemma_folds_agree(ls: Seq<Seq<char>>)
    ensures
        plugin_fold(ls).0 == name_file_fold(ls).0,
        plugin_fold(ls).1 == name_file_fold(ls).1,
    decreases ls.len(),
{
    if ls.len() > 0 {
        lemma_folds_agree(ls.drop_last());
    }
}

/// The plugin picker and the auth-dialog lookup read the same service from a plugin's
/// `.name` file: it lists a plugin exactly when it names a service, and under that
/// service.
pub proof fn law_plugin_and_auth_dialog_agree_on_service(content: Seq<char>)
    ensures
        parse_plugin_spec(content) is Some <==> name_file_fold(lines(content)).1 is Some,
        parse_plugin_spec(content) is Some ==> Some(parse_plugin_spec(content).unwrap().0)
            == name_file_fold(lines(content)).1,
{
    lemma_folds_agree(lines(content));
}

/// The notices of a refresh for one connection whose last status was `was`: it is
/// notified as connected when it has come up from any other status, and as
/// disconnected when it has gone down from being connected, connecting or
/// disconnecting (the row a user's disconnect left in "disconnecting" included); no
/// other change is notified, nor a connection that was not listed before.
pub proof fn law_transition_notices(old: Seq<VpnConnection>, c: VpnConnection)
    ensures
        previous_status(old, c.uuid@) is None ==> transitions_spec(old, seq![c]) == Seq::<
            (Notice, Seq<char>),
        >::empty(),
        previous_status(old, c.uuid@) == Some(VpnStatus::Connected) && c.status
            == VpnStatus::Disconnected ==> transitions_spec(old, seq![c]) == seq![
            (Notice::Disconnected, c.id@),
        ],
        previous_status(old, c.uuid@) == Some(VpnStatus::Connecting) && c.status
            == VpnStatus::Disconnected ==> transitions_spec(old, seq![c]) == seq![
            (Notice::Disconnected, c.id@),
        ],
        previous_status(old, c.uuid@) == Some(VpnStatus::Disconnecting) && c.status
            == VpnStatus::Disconnected ==> transitions_spec(old, seq![c]) == seq![
            (Notice::Disconnected, c.id@),
        ],
        (previous_status(old, c.uuid@) == Some(VpnStatus::Disconnected) || previous_status(
            old,
            c.uuid@,
        ) == Some(VpnStatus::Unknown)) && c.status == VpnStatus::Disconnected ==> transitions_spec(
            old,
            seq![c],
        ) == Seq::<(Notice, Seq<char>)>::empty(),
        previous_status(old, c.uuid@) is Some && previous_status(old, c.uuid@) != Some(
            VpnStatus::Connected,
        ) && c.status == VpnStatus::Connected ==> transitions_spec(old, seq![c]) == seq![
            (Notice::Connected, c.id@),
        ],
        previous_status(old, c.uuid@) == Some(VpnStatus::Connected) && c.status
            == VpnStatus::Connected ==> transitions_spec(old, seq![c]) == Seq::<
            (Notice, Seq<char>),
        >::empty(),
        c.status == VpnStatus::Connecting || c.status == VpnStatus::Disconnecting || c.status
            == VpnStatus::Unknown ==> transitions_spec(old, seq![c]) == Seq::<
            (Notice, Seq<char>),
        >::empty(),
{
    let one = seq![c];
    assert(one.drop_last() =~= Seq::<VpnConnection>::empty());
    assert(one.last() == c);
    assert(transitions_spec(old, Seq::<VpnConnection>::empty()) == Seq::<(Notice, Seq<char>)>::empty());
    assert(Seq::<(Notice, Seq<char>)>::empty().push((Notice::Disconnected, c.id@)) =~= seq![
        (Notice::Disconnected, c.id@),
    ]);
    assert(Seq::<(Notice, Seq<char>)>::empty().push((Notice::Connected, c.id@)) =~= seq![
        (Notice::Connected, c.id@),
    ]);
}

/// A refresh from a one-connection list to the same connection, gone down after a
/// disconnect left it "disconnecting", notifies exactly its disconnection.
pub proof fn law_user_disconnect_is_notified(c_old: VpnConnection, c_new: VpnConnection)
    requires
        c_old.uuid@ == c_new.uuid@,
        c_old.status == VpnStatus::Connected || c_old.status == VpnStatus::Connecting
            || c_old.status == VpnStatus::Disconnecting,
        c_new.status == VpnStatus::Disconnected,
    ensures
        transitions_spec(seq![c_old], seq![c_new]) == seq![(Notice::Disconnected, c_new.id@)],
{
    let old = seq![c_old];
    assert(old.last() == c_old);
    assert(previous_status(old, c_new.uuid@) == Some(c_old.status));
    law_transition_notices(old, c_new);
}

/// An inactive VPN is disconnected whatever its device state; an active one is
/// connected when activated, connecting in every activation step (prepare, config,
/// need-auth, IP config, IP check, secondaries), disconnecting while deactivating,
/// disconnected only when failed, disconnected, unavailable or unmanaged, and of
/// unknown status in any other state.
pub proof fn law_device_state_mapping(active: bool, state: DeviceState)
    ensures
        !active ==> status_from_spec(active, state) == VpnStatus::Disconnected,
        active && state == DeviceState::Activated ==> status_from_spec(active, state)
            == VpnStatus::Connected,
        active && (state == DeviceState::Prepare || state == DeviceState::Config || state
            == DeviceState::NeedAuth || state == DeviceState::IpConfig || state
            == DeviceState::IpCheck || state == DeviceState::Secondaries) ==> status_from_spec(
            active,
            state,
        ) == VpnStatus::Connecting,
        active && state == DeviceState::Deactivating ==> status_from_spec(active, state)
            == VpnStatus::Disconnecting,
        active ==> (status_from_spec(active, state) == VpnStatus::Disconnected <==> (state
            == DeviceState::Failed || state == DeviceState::Disconnected || state
            == DeviceState::Unavailable || state == DeviceState::Unmanaged)),
        active && state is Other ==> status_from_spec(active, state) == VpnStatus::Unknown,
{
}

/// `x = q * d + r` with `r < d` gives `x / d == q` and `x % d == r`.
proof fn lemma_div_mod_of(x: nat, d: nat, q: nat, r: nat)
    requires
        d > 0,
        r < d,
        x == q * d + r,
    ensures
        x / d == q,
        x % d == r,
{
    lemma_fundamental_div_mod_converse_div(x as int, d as int, q as int, r as int);
    lemma_fundamental_div_mod_converse_mod(x as int, d as int, q as int, r as int);
}

/// A number's decimal text reads back to the number: non-empty ASCII digits whose
/// value is the number.
pub proof fn law_decimal_reads_back(n: nat)
    ensures
        decimal(n).len() > 0,
        all_digits(decimal(n)),
        digits_value(decimal(n)) == n,
{
    lemma_decimal_digits(n);
}

/// A two-digit field reads back to its number: exactly two ASCII digits whose value
/// is the number.
pub proof fn law_two_digits_read_back(n: nat)
    requires
        n < 100,
    ensures
        two_digits(n).len() == 2,
        all_digits(two_digits(n)),
        digits_value(two_digits(n)) == n,
{
    lemma_decimal_digits(n);
    if n < 10 {
        let t = two_digits(n);
        assert(decimal(n) == seq![digit_char(n)]);
        assert(t =~= seq!['0', digit_char(n)]);
        assert(t.drop_last() =~= seq!['0']);
        assert(seq!['0'].drop_last() =~= Seq::<char>::empty());
        assert(('0' as u32) == 48);
        assert(seq!['0'].last() == '0');
        assert(digits_value(seq!['0']) == digits_value(Seq::<char>::empty()) * 10 + (('0' as u32)
            - 48) as nat);
        assert(digits_value(seq!['0']) == 0);
        assert((digit_char(n) as u32) == 48 + n);
    } else {
        let d = decimal(n);
        assert(n / 10 < 10);
        assert(decimal(n / 10) == seq![digit_char(n / 10)]);
        assert(d == seq![digit_char(n / 10)].push(digit_char(n % 10)));
    }
}

/// The duration text reads back to the duration: for `h` hours, `m < 60` minutes and
/// `s < 60` seconds it is `{h}h {mm}m {ss}s` when there is an hour (any number of
/// hours, not wrapped at a day), else `{m}m {ss}s` when there is a minute, else `{s}s`.
pub proof fn law_duration_text(h: nat, m: nat, s: nat)
    requires
        m < 60,
        s < 60,
    ensures
        h > 0 ==> format_duration_spec(h * 3600 + m * 60 + s) == decimal(h) + seq!['h', ' ']
            + two_digits(m) + seq!['m', ' '] + two_digits(s) + seq!['s'],
        h == 0 && m > 0 ==> format_duration_spec(m * 60 + s) == decimal(m) + seq!['m', ' ']
            + two_digits(s) + seq!['s'],
        h == 0 && m == 0 ==> format_duration_spec(s) == decimal(s) + seq!['s'],
{
    let x = h * 3600 + m * 60 + s;
    let within = m * 60 + s;
    assert(within < 3600) by (nonlinear_arith)
        requires
            m < 60,
            s < 60,
            within == m * 60 + s,
    ;
    lemma_div_mod_of(x, 3600, h, within);
    lemma_div_mod_of(within, 60, m, s);
    assert(h * 3600 + m * 60 + s == (h * 60 + m) * 60 + s) by (nonlinear_arith);
    lemma_div_mod_of(x, 60, h * 60 + m, s);
    lemma_div_mod_of(m * 60 + s, 60, m, s);
}

/// The "last used" text: none for a connection never used; "just now" within a minute
/// (or for a time in the future); then whole minutes below an hour, whole hours below a
/// day, and whole days, each count at least one.
pub proof fn law_last_used_text(last_used: nat, now: nat, q: nat, r: nat)
    ensures
        last_used == 0 ==> format_last_used_spec(last_used, now) is None,
        last_used > 0 && now < last_used + 60 ==> format_last_used_spec(last_used, now) == Some(
            "just now"@,
        ),
        last_used > 0 && 1 <= q < 60 && r < 60 && now == last_used + q * 60 + r
            ==> format_last_used_spec(last_used, now) == Some(decimal(q) + " min ago"@),
        last_used > 0 && 1 <= q < 24 && r < 3600 && now == last_used + q * 3600 + r
            ==> format_last_used_spec(last_used, now) == Some(decimal(q) + " h ago"@),
        last_used > 0 && q >= 1 && r < 86400 && now == last_used + q * 86400 + r
            ==> format_last_used_spec(last_used, now) == Some(decimal(q) + " d ago"@),
{
    if last_used > 0 && 1 <= q < 60 && r < 60 && now == last_used + q * 60 + r {
        let e: nat = (now - last_used) as nat;
        lemma_div_mod_of(e, 60, q, r);
        assert(60 <= e < 3600) by (nonlinear_arith)
            requires
                1 <= q < 60,
                r < 60,
                e == q * 60 + r,
        ;
    }
    if last_used > 0 && 1 <= q < 24 && r < 3600 && now == last_used + q * 3600 + r {
        let e: nat = (now - last_used) as nat;
        lemma_div_mod_of(e, 3600, q, r);
        assert(3600 <= e < 86400) by (nonlinear_arith)
            requires
                1 <= q < 24,
                r < 3600,
                e == q * 3600 + r,
        ;
    }
    if last_used > 0 && q >= 1 && r < 86400 && now == last_used + q * 86400 + r {
        let e: nat = (now - last_used) as nat;
        lemma_div_mod_of(e, 86400, q, r);
        assert(86400 <= e) by (nonlinear_arith)
            requires
                q >= 1,
                e == q * 86400 + r,
        ;
    }
}

/// The place of each kind of row in a detail panel, top to bottom.
pub open spec fn row_rank(k: DetailRow) -> int {
    match k {
        DetailRow::Type => 0,
        DetailRow::Gateway => 1,
        DetailRow::Ipv4 => 2,
        DetailRow::Ipv6 => 3,
        DetailRow::Dns => 4,
        DetailRow::Received => 5,
        DetailRow::Sent => 6,
        DetailRow::Duration => 7,
        DetailRow::LastUsed => 8,
    }
}

/// Each row comes after every row of an earlier kind (so each kind at most once).
pub open spec fn rows_in_order(rows: Seq<(DetailRow, Seq<char>)>) -> bool {
    forall|i: int, j: int|
        0 <= i < j < rows.len() ==> row_rank((#[trigger] rows[i]).0) < row_rank((#[trigger] rows[j]).0)
}

/// Some row is of kind `k`.
pub open spec fn has_kind(rows: Seq<(DetailRow, Seq<char>)>, k: DetailRow) -> bool {
    exists|i: int| 0 <= i < rows.len() && (#[trigger] rows[i]).0 == k
}

/// Some row is `(k, t)`.
pub open spec fn has_row(rows: Seq<(DetailRow, Seq<char>)>, k: DetailRow, t: Seq<char>) -> bool {
    exists|i: int| 0 <= i < rows.len() && #[trigger] rows[i] == (k, t)
}

/// Every row comes before kind `k`.
spec fn all_before(rows: Seq<(DetailRow, Seq<char>)>, k: DetailRow) -> bool {
    forall|i: int| 0 <= i < rows.len() ==> row_rank((#[trigger] rows[i]).0) < row_rank(k)
}

proof fn lemma_push_row(s: Seq<(DetailRow, Seq<char>)>, k: DetailRow, o: Option<Seq<char>>)
    requires
        rows_in_order(s),
        all_before(s, k),
    ensures
        rows_in_order(push_opt(s, k, o)),
        forall|k2: DetailRow| #[trigger] has_kind(push_opt(s, k, o), k2) == (has_kind(s, k2) || (o is Some && k2 == k)),
        forall|k2: DetailRow| row_rank(k) < row_rank(k2) ==> #[trigger] all_before(push_opt(s, k, o), k2),
        forall|k2: DetailRow, t2: Seq<char>| #[trigger] has_row(s, k2, t2) ==> has_row(push_opt(s, k, o), k2, t2),
        o is Some ==> has_row(push_opt(s, k, o), k, o.unwrap()),
        push_opt(s, k, o).len() >= s.len(),
        s.len() > 0 ==> push_opt(s, k, o)[0] == s[0],
{
    let n = push_opt(s, k, o);
    match o {
        Some(t) => {
            assert(n == s.push((k, t)));
            assert forall|i: int| 0 <= i < s.len() implies n[i] == s[i] by {}
            assert(n[s.len() as int] == (k, t));
            assert forall|k2: DetailRow| #[trigger] has_kind(n, k2) == (has_kind(s, k2) || k2 == k) by {
                if has_kind(n, k2) {
                    let i = choose|i: int| 0 <= i < n.len() && (#[trigger] n[i]).0 == k2;
                    if i < s.len() {
                        assert(s[i].0 == k2);
                    }
                }
                if has_kind(s, k2) {
                    let i = choose|i: int| 0 <= i < s.len() && (#[trigger] s[i]).0 == k2;
                    assert(n[i].0 == k2);
                }
                if k2 == k {
                    assert(n[s.len() as int].0 == k2);
                }
            }
            assert forall|k2: DetailRow, t2: Seq<char>| #[trigger] has_row(s, k2, t2) implies has_row(n, k2, t2) by {
                let i = choose|i: int| 0 <= i < s.len() && #[trigger] s[i] == (k2, t2);
                assert(n[i] == (k2, t2));
            }
            assert forall|i: int, j: int| 0 <= i < j < n.len() implies row_rank((#[trigger] n[i]).0)
                < row_rank((#[trigger] n[j]).0) by {
                if j < s.len() {
                    assert(n[i] == s[i] && n[j] == s[j]);
                } else {
                    assert(n[i] == s[i]);
                }
            }
        },
        None => {},
    }
}

/// The detail rows built one optional row at a time.
spec fn rows_chain(
    c: VpnConnection,
    rates: Option<(u64, u64)>,
    connected_for: Option<u64>,
    now: u64,
) -> Seq<(DetailRow, Seq<char>)> {
    let r0 = seq![(DetailRow::Type, c.type_label@)];
    let r1 = push_opt(r0, DetailRow::Gateway, opt_view(c.gateway));
    let r2 = push_opt(r1, DetailRow::Ipv4, opt_view(c.ip4));
    let r3 = push_opt(r2, DetailRow::Ipv6, opt_view(c.ip6));
    let r4 = push_opt(r3, DetailRow::Dns, dns_text(c));
    let r5a = push_opt(r4, DetailRow::Received, rx_text(c, rates));
    let r5 = push_opt(r5a, DetailRow::Sent, tx_text(c, rates));
    let r6 = push_opt(r5, DetailRow::Duration, duration_text(connected_for));
    push_opt(r6, DetailRow::LastUsed, last_used_text(c, connected_for, now))
}

spec fn dns_text(c: VpnConnection) -> Option<Seq<char>> {
    if c.dns_servers@.len() > 0 {
        Some(join_spec(string_views(c.dns_servers@), ", "@))
    } else {
        None
    }
}

spec fn busy(c: VpnConnection) -> bool {
    c.status == VpnStatus::Connected && (c.rx_bytes > 0 || c.tx_bytes > 0)
}

spec fn rx_text(c: VpnConnection, rates: Option<(u64, u64)>) -> Option<Seq<char>> {
    if busy(c) {
        Some(traffic_text(c.rx_bytes, match rates { Some(r) => r.0, None => 0u64 }))
    } else {
        None
    }
}

spec fn tx_text(c: VpnConnection, rates: Option<(u64, u64)>) -> Option<Seq<char>> {
    if busy(c) {
        Some(traffic_text(c.tx_bytes, match rates { Some(r) => r.1, None => 0u64 }))
    } else {
        None
    }
}

spec fn duration_text(connected_for: Option<u64>) -> Option<Seq<char>> {
    match connected_for {
        Some(s) => Some(format_duration_spec(s as nat)),
        None => None,
    }
}

spec fn last_used_text(c: VpnConnection, connected_for: Option<u64>, now: u64) -> Option<Seq<char>> {
    match connected_for {
        Some(_) => None,
        None => format_last_used_spec(c.last_used as nat, now as nat),
    }
}

proof fn lemma_rows_chain(
    c: VpnConnection,
    rates: Option<(u64, u64)>,
    connected_for: Option<u64>,
    now: u64,
)
    ensures
        rows_chain(c, rates, connected_for, now) == detail_rows_spec(c, rates, connected_for, now),
{
}

/// A connection's detail panel: its type first; then, each in this order and only
/// when it applies, its gateway, IPv4 address and IPv6 address (each shown exactly when
/// known), its DNS servers (when it has any), the received and sent traffic (while
/// connected with any bytes counted), and how long it has been up (when that is known)
/// or else when it was last used (if ever).
#[verifier::rlimit(40)]
pub proof fn law_detail_rows(
    c: VpnConnection,
    rates: Option<(u64, u64)>,
    connected_for: Option<u64>,
    now: u64,
    rows: Seq<(DetailRow, Seq<char>)>,
)
    requires
        rows == detail_rows_spec(c, rates, connected_for, now),
    ensures
        rows.len() >= 1,
        rows[0] == (DetailRow::Type, c.type_label@),
        rows_in_order(rows),
        has_kind(rows, DetailRow::Gateway) <==> c.gateway is Some,
        c.gateway is Some ==> has_row(rows, DetailRow::Gateway, c.gateway.unwrap()@),
        has_kind(rows, DetailRow::Ipv4) <==> c.ip4 is Some,
        c.ip4 is Some ==> has_row(rows, DetailRow::Ipv4, c.ip4.unwrap()@),
        has_kind(rows, DetailRow::Ipv6) <==> c.ip6 is Some,
        c.ip6 is Some ==> has_row(rows, DetailRow::Ipv6, c.ip6.unwrap()@),
        has_kind(rows, DetailRow::Dns) <==> c.dns_servers@.len() > 0,
        c.dns_servers@.len() > 0 ==> has_row(
            rows,
            DetailRow::Dns,
            join_spec(string_views(c.dns_servers@), ", "@),
        ),
        has_kind(rows, DetailRow::Received) <==> (c.status == VpnStatus::Connected && (c.rx_bytes
            > 0 || c.tx_bytes > 0)),
        has_kind(rows, DetailRow::Sent) <==> (c.status == VpnStatus::Connected && (c.rx_bytes
            > 0 || c.tx_bytes > 0)),
        has_kind(rows, DetailRow::Duration) <==> connected_for is Some,
        connected_for is Some ==> has_row(
            rows,
            DetailRow::Duration,
            format_duration_spec(connected_for.unwrap() as nat),
        ),
        has_kind(rows, DetailRow::LastUsed) <==> (connected_for is None && c.last_used != 0),
{
    lemma_rows_chain(c, rates, connected_for, now);
    let r0 = seq![(DetailRow::Type, c.type_label@)];
    assert(r0[0] == (DetailRow::Type, c.type_label@));
    assert forall|k2: DetailRow| #[trigger] has_kind(r0, k2) == (k2 == DetailRow::Type) by {
        if has_kind(r0, k2) {
            let i = choose|i: int| 0 <= i < r0.len() && (#[trigger] r0[i]).0 == k2;
            assert(i == 0);
        }
        if k2 == DetailRow::Type {
            assert(r0[0].0 == k2);
        }
    }
    assert(rows_in_order(r0));
    assert(all_before(r0, DetailRow::Gateway));
    lemma_push_row(r0, DetailRow::Gateway, opt_view(c.gateway));
    let r1 = push_opt(r0, DetailRow::Gateway, opt_view(c.gateway));
    lemma_push_row(r1, DetailRow::Ipv4, opt_view(c.ip4));
    let r2 = push_opt(r1, DetailRow::Ipv4, opt_view(c.ip4));
    lemma_push_row(r2, DetailRow::Ipv6, opt_view(c.ip6));
    let r3 = push_opt(r2, DetailRow::Ipv6, opt_view(c.ip6));
    lemma_push_row(r3, DetailRow::Dns, dns_text(c));
    let r4 = push_opt(r3, DetailRow::Dns, dns_text(c));
    lemma_push_row(r4, DetailRow::Received, rx_text(c, rates));
    let r5a = push_opt(r4, DetailRow::Received, rx_text(c, rates));
    lemma_push_row(r5a, DetailRow::Sent, tx_text(c, rates));
    let r5 = push_opt(r5a, DetailRow::Sent, tx_text(c, rates));
    lemma_push_row(r5, DetailRow::Duration, duration_text(connected_for));
    let r6 = push_opt(r5, DetailRow::Duration, duration_text(connected_for));
    lemma_push_row(r6, DetailRow::LastUsed, last_used_text(c, connected_for, now));
}

} // verus!
