//! The connection editor's state (create or edit mode) and the decisions of its
//! form: which fields a protocol shows, which choice a dropdown starts on, and the
//! connection spec a save produces.
use vstd::prelude::*;

use crate::enums::{plugin_short_name, plugin_short_name_of};
use crate::model::{NewVpn, NewWgPeer, NewWireGuard, VpnEdit, WgEdit};
use crate::text::{
    chars_eq, chars_eq_str, chars_of, parse_i32, parse_i32_spec, string_from, trim, trim_chars,
};
use crate::vpn_auth::{pair_views, VpnPlugin};

verus! {

/// One WireGuard peer row in the editor.
pub struct WgPeerForm {
    /// Peer public key.
    pub public_key: String,
    /// Peer endpoint (`host:port`).
    pub endpoint: String,
    /// Peer allowed IPs.
    pub allowed_ips: String,
    /// Pre-shared key (optional).
    pub preshared_key: String,
    /// Persistent keepalive seconds (optional).
    pub persistent_keepalive: String,
}

/// An empty string.
pub fn empty_string() -> (r: String)
    ensures
        r@ == Seq::<char>::empty(),
{
    let v: Vec<char> = Vec::new();
    string_from(&v)
}

/// `s` trimmed, as a new string.
pub fn trimmed(s: &String) -> (r: String)
    ensures
        r@ == trim(s@),
{
    string_from(&trim_chars(&chars_of(s.as_str())))
}

/// The backend peer spec of a peer row: every field trimmed but the allowed IPs,
/// which are split later.
pub open spec fn peer_spec_of(p: NewWgPeer, f: WgPeerForm) -> bool {
    &&& p.public_key@ == trim(f.public_key@)
    &&& p.endpoint@ == trim(f.endpoint@)
    &&& p.allowed_ips@ == f.allowed_ips@
    &&& p.preshared_key@ == trim(f.preshared_key@)
    &&& p.persistent_keepalive@ == trim(f.persistent_keepalive@)
}

impl WgPeerForm {
    /// An empty peer row.
    pub fn empty() -> (r: WgPeerForm)
        ensures
            r.public_key@.len() == 0,
            r.endpoint@.len() == 0,
            r.allowed_ips@.len() == 0,
            r.preshared_key@.len() == 0,
            r.persistent_keepalive@.len() == 0,
    {
        WgPeerForm {
            public_key: empty_string(),
            endpoint: empty_string(),
            allowed_ips: empty_string(),
            preshared_key: empty_string(),
            persistent_keepalive: empty_string(),
        }
    }

    /// Convert this row into a backend peer spec.
    pub fn to_spec(&self) -> (r: NewWgPeer)
        ensures
            peer_spec_of(r, *self),
    {
        NewWgPeer {
            public_key: trimmed(&self.public_key),
            endpoint: trimmed(&self.endpoint),
            allowed_ips: self.allowed_ips.clone(),
            preshared_key: trimmed(&self.preshared_key),
            persistent_keepalive: trimmed(&self.persistent_keepalive),
        }
    }

    /// Build a row from a backend peer spec (prefill).
    pub fn from_spec(peer: NewWgPeer) -> (r: WgPeerForm)
        ensures
            r.public_key == peer.public_key,
            r.endpoint == peer.endpoint,
            r.allowed_ips == peer.allowed_ips,
            r.preshared_key == peer.preshared_key,
            r.persistent_keepalive == peer.persistent_keepalive,
    {
        WgPeerForm {
            public_key: peer.public_key,
            endpoint: peer.endpoint,
            allowed_ips: peer.allowed_ips,
            preshared_key: peer.preshared_key,
            persistent_keepalive: peer.persistent_keepalive,
        }
    }
}

/// State of the connection editor (create or edit mode).
pub struct Editor {
    /// UUID being edited, or `None` when creating.
    pub edit_uuid: Option<String>,
    /// Installed VPN plugins to choose from (create mode).
    pub plugins: Vec<VpnPlugin>,
    /// Chosen `vpn.service-type`, once a type is picked.
    pub service_type: Option<String>,
    /// Display name of the chosen type.
    pub kind_name: String,
    /// Connection name.
    pub name: String,
    /// Whether to auto-activate.
    pub autoconnect: bool,
    /// Autoconnect priority (text; parsed to i32 on save).
    pub autoconnect_priority: String,
    /// Metered: 0 automatic, 1 metered, 2 not metered.
    pub metered: i32,
    /// Firewall zone.
    pub zone: String,
    /// Split tunnel (never use as default route).
    pub never_default: bool,
    /// DNS search domains (space separated).
    pub dns_search: String,
    /// DNS servers (space separated).
    pub dns: String,
    /// `vpn.data` key/value rows.
    pub data: Vec<(String, String)>,
    /// True when editing a WireGuard tunnel.
    pub is_wireguard: bool,
    /// WireGuard interface private key.
    pub wg_private_key: String,
    /// WireGuard interface address (CIDR).
    pub wg_address: String,
    /// WireGuard DNS servers (space separated).
    pub wg_dns: String,
    /// WireGuard interface MTU (text; parsed on save).
    pub wg_mtu: String,
    /// WireGuard peers (at least one).
    pub wg_peers: Vec<WgPeerForm>,
    /// True while a save is in flight.
    pub saving: bool,
}

/// The value of the first `vpn.data` row with key `key`, or empty.
pub open spec fn data_value_spec(data: Seq<(String, String)>, key: Seq<char>) -> Seq<char>
    decreases data.len(),
{
    if data.len() == 0 {
        Seq::empty()
    } else if data[0].0@ == key {
        data[0].1@
    } else {
        data_value_spec(data.drop_first(), key)
    }
}

/// Whether a row's key is not `key`.
pub open spec fn key_differs(key: Seq<char>) -> spec_fn((Seq<char>, Seq<char>)) -> bool {
    |p: (Seq<char>, Seq<char>)| p.0 != key
}

/// The rows without key `key`, then `(key, value)` unless the value is empty.
pub open spec fn set_data_spec(data: Seq<(Seq<char>, Seq<char>)>, key: Seq<char>, value: Seq<
    char,
>) -> Seq<(Seq<char>, Seq<char>)> {
    data.filter(key_differs(key)) + (if value.len() > 0 {
        seq![(key, value)]
    } else {
        Seq::empty()
    })
}

/// Whether every field of an editor is empty or off, as a fresh editor's are.
pub open spec fn is_blank(e: Editor) -> bool {
    &&& e.edit_uuid is None
    &&& e.service_type is None
    &&& e.kind_name@.len() == 0
    &&& e.name@.len() == 0
    &&& !e.autoconnect
    &&& e.autoconnect_priority@.len() == 0
    &&& e.metered == 0
    &&& e.zone@.len() == 0
    &&& !e.never_default
    &&& e.dns_search@.len() == 0
    &&& e.dns@.len() == 0
    &&& e.data@.len() == 0
    &&& !e.is_wireguard
    &&& e.wg_private_key@.len() == 0
    &&& e.wg_address@.len() == 0
    &&& e.wg_dns@.len() == 0
    &&& e.wg_mtu@.len() == 0
    &&& e.wg_peers@.len() == 0
    &&& !e.saving
}

/// A copy of a list of string pairs.
pub fn clone_pairs(v: &Vec<(String, String)>) -> (r: Vec<(String, String)>)
    ensures
        r@ == v@,
{
    let mut r: Vec<(String, String)> = Vec::new();
    let mut i: usize = 0;
    while i < v.len()
        invariant
            i <= v@.len(),
            r@ == v@.take(i as int),
        decreases v.len() - i,
    {
        r.push((v[i].0.clone(), v[i].1.clone()));
        assert(r@ =~= v@.take(i + 1));
        i += 1;
    }
    assert(v@.take(v@.len() as int) =~= v@);
    r
}

impl Editor {
    /// A fresh editor in create mode with the installed plugins to choose from.
    pub fn new(plugins: Vec<VpnPlugin>) -> (r: Editor)
        ensures
            r.plugins == plugins,
            is_blank(r),
    {
        Editor {
            edit_uuid: None,
            plugins,
            service_type: None,
            kind_name: empty_string(),
            name: empty_string(),
            autoconnect: false,
            autoconnect_priority: empty_string(),
            metered: 0,
            zone: empty_string(),
            never_default: false,
            dns_search: empty_string(),
            dns: empty_string(),
            data: Vec::new(),
            is_wireguard: false,
            wg_private_key: empty_string(),
            wg_address: empty_string(),
            wg_dns: empty_string(),
            wg_mtu: empty_string(),
            wg_peers: Vec::new(),
            saving: false,
        }
    }

    /// Current value of a `vpn.data` key (empty string when unset).
    pub fn data_value(&self, key: &str) -> (r: String)
        ensures
            r@ == data_value_spec(self.data@, key@),
    {
        let k = chars_of(key);
        let mut i: usize = 0;
        assert(self.data@.skip(0) =~= self.data@);
        while i < self.data.len()
            invariant
                i <= self.data@.len(),
                k@ == key@,
                data_value_spec(self.data@, key@) == data_value_spec(self.data@.skip(i as int), key@),
            decreases self.data.len() - i,
        {
            let rk = chars_of(self.data[i].0.as_str());
            assert(self.data@.skip(i as int)[0] == self.data@[i as int]);
            if chars_eq(&rk, &k) {
                return self.data[i].1.clone();
            }
            assert(self.data@.skip(i as int).drop_first() =~= self.data@.skip(i + 1));
            i += 1;
        }
        empty_string()
    }

    /// Upsert a `vpn.data` key: its rows are removed, then `(key, value)` is appended
    /// unless the value is empty (an empty value removes the key).
    pub fn set_data(&mut self, key: &str, value: String)
        ensures
            pair_views(final(self).data@) == set_data_spec(pair_views(old(self).data@), key@, value@),
            *final(self) == (Editor { data: final(self).data, ..*old(self) }),
    {
        let k = chars_of(key);
        let mut old_data: Vec<(String, String)> = Vec::new();
        std::mem::swap(&mut old_data, &mut self.data);
        let ghost od = pair_views(old_data@);
        let mut kept: Vec<(String, String)> = Vec::new();
        let mut i: usize = 0;
        while i < old_data.len()
            invariant
                i <= old_data@.len(),
                k@ == key@,
                od == pair_views(old_data@),
                pair_views(kept@) == od.take(i as int).filter(key_differs(key@)),
            decreases old_data.len() - i,
        {
            proof {
                reveal(Seq::filter);
            }
            assert(od.take(i + 1).drop_last() =~= od.take(i as int));
            assert(od.take(i + 1).last() == od[i as int]);
            let rk = chars_of(old_data[i].0.as_str());
            if !chars_eq(&rk, &k) {
                let ghost before = pair_views(kept@);
                kept.push((old_data[i].0.clone(), old_data[i].1.clone()));
                assert(pair_views(kept@) =~= before.push(od[i as int]));
            }
            i += 1;
        }
        assert(od.take(od.len() as int) =~= od);
        let ghost filtered = pair_views(kept@);
        if value.as_str().is_empty() {
            assert(filtered + Seq::<(Seq<char>, Seq<char>)>::empty() =~= filtered);
        } else {
            let ks = string_from(&k);
            let ghost vv = value@;
            kept.push((ks, value));
            assert(pair_views(kept@) =~= filtered + seq![(key@, vv)]);
        }
        self.data = kept;
    }
}

/// Which form the editor shows for a plugin service type.
#[derive(Debug, Clone, Copy, PartialEq, Eq, Structural)]
pub enum FormKind {
    /// The structured OpenConnect form.
    OpenConnect,
    /// The structured OpenVPN form.
    OpenVpn,
    /// The structured vpnc (Cisco IPsec) form.
    Vpnc,
    /// Free-form `vpn.data` rows.
    Generic,
}

/// Whether `s` ends with `suffix`.
pub open spec fn ends_with(s: Seq<char>, suffix: Seq<char>) -> bool {
    suffix.len() <= s.len() && s.skip(s.len() - suffix.len()) == suffix
}

/// The form for a service type, by its ending.
pub open spec fn form_kind_spec(service_type: Seq<char>) -> FormKind {
    if ends_with(service_type, "openconnect"@) {
        FormKind::OpenConnect
    } else if ends_with(service_type, "openvpn"@) {
        FormKind::OpenVpn
    } else if ends_with(service_type, "vpnc"@) {
        FormKind::Vpnc
    } else {
        FormKind::Generic
    }
}

/// Whether `s` ends with `suffix`.
pub fn str_ends_with(s: &str, suffix: &str) -> (r: bool)
    ensures
        r == ends_with(s@, suffix@),
{
    let a = chars_of(s);
    let b = chars_of(suffix);
    if b.len() > a.len() {
        return false;
    }
    let tail = crate::text::slice_chars(&a, a.len() - b.len(), a.len());
    assert(a@.subrange(a@.len() - b@.len(), a@.len() as int) =~= a@.skip(a@.len() - b@.len()));
    chars_eq(&tail, &b)
}

/// The form the editor shows for a service type.
pub fn form_kind(service_type: &str) -> (r: FormKind)
    ensures
        r == form_kind_spec(service_type@),
{
    if str_ends_with(service_type, "openconnect") {
        FormKind::OpenConnect
    } else if str_ends_with(service_type, "openvpn") {
        FormKind::OpenVpn
    } else if str_ends_with(service_type, "vpnc") {
        FormKind::Vpnc
    } else {
        FormKind::Generic
    }
}

/// Which OpenVPN fields the form shows for a connection type.
#[derive(Debug, Clone, Copy, PartialEq, Eq, Structural)]
pub struct OpenVpnFields {
    /// The CA certificate (all but static-key).
    pub ca: bool,
    /// The user certificate and key (TLS types).
    pub cert_and_key: bool,
    /// The user name (password types).
    pub username: bool,
    /// The static key, its direction and the tunnel addresses (static-key).
    pub static_key: bool,
}

/// The OpenVPN connection type the form uses: `connection-type`, or `tls` when unset.
pub open spec fn openvpn_connection_type(data: Seq<(String, String)>) -> Seq<char> {
    if data_value_spec(data, "connection-type"@).len() == 0 {
        "tls"@
    } else {
        data_value_spec(data, "connection-type"@)
    }
}

/// The fields shown for an OpenVPN connection type.
pub open spec fn openvpn_fields_spec(ct: Seq<char>) -> OpenVpnFields {
    OpenVpnFields {
        ca: ct != "static-key"@,
        cert_and_key: ct == "tls"@ || ct == "password-tls"@,
        username: ct == "password"@ || ct == "password-tls"@,
        static_key: ct == "static-key"@,
    }
}

impl Editor {
    /// The OpenVPN connection type the form uses (`tls` when unset).
    pub fn openvpn_connection_type(&self) -> (r: String)
        ensures
            r@ == openvpn_connection_type(self.data@),
    {
        let ct = self.data_value("connection-type");
        if ct.as_str().is_empty() {
            string_from(&chars_of("tls"))
        } else {
            ct
        }
    }

    /// Whether the save button is enabled: a non-blank name and no save in flight.
    pub fn can_save(&self) -> (r: bool)
        ensures
            r == (trim(self.name@).len() > 0 && !self.saving),
    {
        let t = trim_chars(&chars_of(self.name.as_str()));
        t.len() > 0 && !self.saving
    }
}

/// The fields the OpenVPN form shows for a connection type.
pub fn openvpn_fields(ct: &str) -> (r: OpenVpnFields)
    ensures
        r == openvpn_fields_spec(ct@),
{
    let c = chars_of(ct);
    let tls = chars_eq_str(&c, "tls");
    let password = chars_eq_str(&c, "password");
    let password_tls = chars_eq_str(&c, "password-tls");
    let static_key = chars_eq_str(&c, "static-key");
    OpenVpnFields {
        ca: !static_key,
        cert_and_key: tls || password_tls,
        username: password || password_tls,
        static_key,
    }
}

/// The index of the first value equal to `current`, if any.
pub open spec fn choice_position(values: Seq<&str>, current: Seq<char>) -> Option<nat>
    decreases values.len(),
{
    if values.len() == 0 {
        None
    } else if values[0]@ == current {
        Some(0)
    } else {
        match choice_position(values.drop_first(), current) {
            Some(i) => Some(i + 1),
            None => None,
        }
    }
}

/// The dropdown entry for `current`: the index of the first equal value, if any.
pub fn position_of(values: &[&str], current: &str) -> (r: Option<usize>)
    ensures
        match r {
            Some(i) => choice_position(values@, current@) == Some(i as nat),
            None => choice_position(values@, current@) is None,
        },
{
    let c = chars_of(current);
    let mut i: usize = 0;
    assert(values@.skip(0) =~= values@);
    while i < values.len()
        invariant
            i <= values@.len(),
            c@ == current@,
            choice_position(values@, current@) == (match choice_position(values@.skip(i as int), current@) {
                Some(j) => Some((j + i) as nat),
                None => None,
            }),
        decreases values.len() - i,
    {
        let v = chars_of(values[i]);
        assert(values@.skip(i as int)[0] == values@[i as int]);
        if chars_eq(&v, &c) {
            return Some(i);
        }
        assert(values@.skip(i as int).drop_first() =~= values@.skip(i + 1));
        i += 1;
    }
    None
}

/// The dropdown entry a choice field starts on: that of the current value, or the
/// first entry.
pub fn choice_index(values: &[&str], current: &str) -> (r: usize)
    ensures
        r == (match choice_position(values@, current@) {
            Some(i) => i,
            None => 0,
        }),
{
    match position_of(values, current) {
        Some(i) => i,
        None => 0,
    }
}

/// The secret-storage choice a `*-flags` value shows: `2` (ask every time) is the
/// second entry, `4` (not required) the third, anything else (stored) the first.
pub open spec fn flag_choice_spec(value: Seq<char>) -> nat {
    if trim(value) == "2"@ {
        1
    } else if trim(value) == "4"@ {
        2
    } else {
        0
    }
}

/// The secret-storage dropdown entry for a `*-flags` value.
pub fn flag_choice(value: &str) -> (r: usize)
    ensures
        r == flag_choice_spec(value@),
{
    let t = trim_chars(&chars_of(value));
    if chars_eq_str(&t, "2") {
        1
    } else if chars_eq_str(&t, "4") {
        2
    } else {
        0
    }
}

/// Whether a key's closed value list is offered as a dropdown: the current value is
/// empty or one of the values.
pub fn enum_dropdown_applies(options: &[&str], value: &str) -> (r: bool)
    ensures
        r == (value@.len() == 0 || choice_position(options@, value@) is Some),
{
    value.is_empty() || position_of(options, value).is_some()
}

/// An `i32` in decimal, with a leading `-` when negative (`i32::to_string`).
pub open spec fn signed_decimal(n: int) -> Seq<char> {
    if n < 0 {
        seq!['-'] + crate::text::decimal((0 - n) as nat)
    } else {
        crate::text::decimal(n as nat)
    }
}

/// `n.to_string()` for an `i32`.
pub fn i32_to_string(n: i32) -> (r: String)
    ensures
        r@ == signed_decimal(n as int),
{
    let mut out: Vec<char> = Vec::new();
    if n < 0 {
        out.push('-');
        let m: i64 = 0 - (n as i64);
        crate::text::push_decimal(&mut out, m as u64);
    } else {
        crate::text::push_decimal(&mut out, n as u64);
    }
    assert(out@ =~= signed_decimal(n as int));
    string_from(&out)
}

/// `s` as an owned string.
pub fn owned(s: &str) -> (r: String)
    ensures
        r@ == s@,
{
    string_from(&chars_of(s))
}

/// The editor a loaded plugin VPN opens: edit mode for `uuid`, its fields prefilled,
/// the type named by its service type's last segment, the WireGuard fields blank.
pub open spec fn vpn_editor_spec(e: Editor, uuid: String, edit: VpnEdit) -> bool {
    &&& e.edit_uuid == Some(uuid)
    &&& e.plugins@.len() == 0
    &&& e.service_type == Some(edit.service_type)
    &&& e.kind_name@ == plugin_short_name(edit.service_type@)
    &&& e.name == edit.name
    &&& e.autoconnect == edit.autoconnect
    &&& e.autoconnect_priority@ == signed_decimal(edit.autoconnect_priority as int)
    &&& e.metered == edit.metered
    &&& e.zone == edit.zone
    &&& e.never_default == edit.never_default
    &&& e.dns_search == edit.dns_search
    &&& e.dns == edit.dns
    &&& e.data == edit.data
    &&& !e.is_wireguard
    &&& e.wg_private_key@.len() == 0
    &&& e.wg_address@.len() == 0
    &&& e.wg_dns@.len() == 0
    &&& e.wg_mtu@.len() == 0
    &&& e.wg_peers@.len() == 0
    &&& !e.saving
}

/// The editor for a loaded plugin VPN.
pub fn vpn_editor(uuid: String, edit: VpnEdit) -> (r: Editor)
    ensures
        vpn_editor_spec(r, uuid, edit),
{
    let ghost e0 = edit;
    let kind = plugin_short_name_of(edit.service_type.as_str());
    Editor {
        edit_uuid: Some(uuid),
        plugins: Vec::new(),
        service_type: Some(edit.service_type),
        kind_name: string_from(&kind),
        name: edit.name,
        autoconnect: edit.autoconnect,
        autoconnect_priority: i32_to_string(edit.autoconnect_priority),
        metered: edit.metered,
        zone: edit.zone,
        never_default: edit.never_default,
        dns_search: edit.dns_search,
        dns: edit.dns,
        data: edit.data,
        is_wireguard: false,
        wg_private_key: empty_string(),
        wg_address: empty_string(),
        wg_dns: empty_string(),
        wg_mtu: empty_string(),
        wg_peers: Vec::new(),
        saving: false,
    }
}

/// A peer row holds exactly the fields of a peer spec.
pub open spec fn row_of_peer(f: WgPeerForm, p: NewWgPeer) -> bool {
    &&& f.public_key == p.public_key
    &&& f.endpoint == p.endpoint
    &&& f.allowed_ips == p.allowed_ips
    &&& f.preshared_key == p.preshared_key
    &&& f.persistent_keepalive == p.persistent_keepalive
}

/// A blank peer row.
pub open spec fn blank_row(f: WgPeerForm) -> bool {
    &&& f.public_key@.len() == 0
    &&& f.endpoint@.len() == 0
    &&& f.allowed_ips@.len() == 0
    &&& f.preshared_key@.len() == 0
    &&& f.persistent_keepalive@.len() == 0
}

/// The editor a loaded WireGuard tunnel opens: edit mode for `uuid`, the interface
/// fields and one row per peer prefilled (a single blank row when it has none), the
/// plugin fields blank.
pub open spec fn wireguard_editor_spec(e: Editor, uuid: String, edit: WgEdit) -> bool {
    &&& e.edit_uuid == Some(uuid)
    &&& e.plugins@.len() == 0
    &&& e.is_wireguard
    &&& opt_string_view_of(e.service_type) == Some("wireguard"@)
    &&& e.kind_name@ == "WireGuard"@
    &&& e.name == edit.name
    &&& e.autoconnect == edit.autoconnect
    &&& e.wg_private_key == edit.private_key
    &&& e.wg_address == edit.address
    &&& e.wg_dns == edit.dns
    &&& e.wg_mtu == edit.mtu
    &&& if edit.peers@.len() == 0 {
        e.wg_peers@.len() == 1 && blank_row(e.wg_peers@[0])
    } else {
        e.wg_peers@.len() == edit.peers@.len() && forall|i: int|
            0 <= i < edit.peers@.len() ==> row_of_peer(#[trigger] e.wg_peers@[i], edit.peers@[i])
    }
    &&& e.autoconnect_priority@.len() == 0
    &&& e.metered == 0
    &&& e.zone@.len() == 0
    &&& !e.never_default
    &&& e.dns_search@.len() == 0
    &&& e.dns@.len() == 0
    &&& e.data@.len() == 0
    &&& !e.saving
}

/// The view of an optional string.
pub open spec fn opt_string_view_of(o: Option<String>) -> Option<Seq<char>> {
    match o {
        Some(s) => Some(s@),
        None => None,
    }
}

/// The editor for a loaded WireGuard tunnel.
pub fn wireguard_editor(uuid: String, edit: WgEdit) -> (r: Editor)
    ensures
        wireguard_editor_spec(r, uuid, edit),
{
    let ghost peers0 = edit.peers@;
    let mut source = edit.peers;
    let mut peers: Vec<WgPeerForm> = Vec::new();
    let n = source.len();
    let mut k: usize = 0;
    assert(peers0.skip(0) =~= peers0);
    while source.len() > 0
        invariant
            n == peers0.len(),
            k <= n,
            source@ == peers0.skip(k as int),
            peers@.len() == k,
            forall|i: int| 0 <= i < k ==> row_of_peer(#[trigger] peers@[i], peers0[i]),
        decreases source.len(),
    {
        let p = source.remove(0);
        assert(p == peers0[k as int]);
        peers.push(WgPeerForm::from_spec(p));
        k += 1;
        assert(source@ =~= peers0.skip(k as int));
    }
    if peers.len() == 0 {
        peers.push(WgPeerForm::empty());
    }
    Editor {
        edit_uuid: Some(uuid),
        plugins: Vec::new(),
        service_type: Some(owned("wireguard")),
        kind_name: owned("WireGuard"),
        name: edit.name,
        autoconnect: edit.autoconnect,
        autoconnect_priority: empty_string(),
        metered: 0,
        zone: empty_string(),
        never_default: false,
        dns_search: empty_string(),
        dns: empty_string(),
        data: Vec::new(),
        is_wireguard: true,
        wg_private_key: edit.private_key,
        wg_address: edit.address,
        wg_dns: edit.dns,
        wg_mtu: edit.mtu,
        wg_peers: peers,
        saving: false,
    }
}

impl Editor {
    /// Choose a plugin type (service type and display name). An OpenConnect type
    /// defaults the protocol to AnyConnect and an OpenVPN type the connection type to
    /// TLS, when those keys are unset.
    pub fn select_type(&mut self, service_type: String, kind_name: String)
        ensures
            final(self).service_type == Some(service_type),
            final(self).kind_name == kind_name,
            pair_views(final(self).data@) == ({
                let d0 = pair_views(old(self).data@);
                let d1 = if ends_with(service_type@, "openconnect"@) && data_value_spec(
                    old(self).data@,
                    "protocol"@,
                ).len() == 0 {
                    set_data_spec(d0, "protocol"@, "anyconnect"@)
                } else {
                    d0
                };
                if ends_with(service_type@, "openvpn"@) && data_value_spec(
                    old(self).data@,
                    "connection-type"@,
                ).len() == 0 {
                    set_data_spec(d1, "connection-type"@, "tls"@)
                } else {
                    d1
                }
            }),
            *final(self) == (Editor {
                service_type: final(self).service_type,
                kind_name: final(self).kind_name,
                data: final(self).data,
                ..*old(self)
            }),
    {
        proof {
            let sv = service_type@;
            reveal_strlit("openvpn");
            reveal_strlit("openconnect");
            if ends_with(sv, "openvpn"@) && ends_with(sv, "openconnect"@) {
                assert(sv.skip(sv.len() - 7)[6] == sv.last());
                assert(sv.skip(sv.len() - 11)[10] == sv.last());
            }
        }
        let oc = str_ends_with(service_type.as_str(), "openconnect");
        let ov = str_ends_with(service_type.as_str(), "openvpn");
        let no_protocol = self.data_value("protocol").as_str().is_empty();
        if oc && no_protocol {
            self.set_data("protocol", owned("anyconnect"));
        }
        let no_ct = self.data_value("connection-type").as_str().is_empty();
        if ov && no_ct {
            self.set_data("connection-type", owned("tls"));
        }
        self.service_type = Some(service_type);
        self.kind_name = kind_name;
    }
}

/// A text field of the editor.
#[derive(Debug, Clone, Copy, PartialEq, Eq, Structural)]
pub enum EditorText {
    /// Connection name.
    Name,
    /// Autoconnect priority.
    Priority,
    /// Firewall zone.
    Zone,
    /// DNS search domains.
    DnsSearch,
    /// DNS servers.
    Dns,
    /// WireGuard private key.
    WgPrivateKey,
    /// WireGuard address.
    WgAddress,
    /// WireGuard DNS servers.
    WgDns,
    /// WireGuard MTU.
    WgMtu,
}

/// The editor with text field `f` set to `v`.
pub open spec fn with_text(e: Editor, f: EditorText, v: String) -> Editor {
    match f {
        EditorText::Name => Editor { name: v, ..e },
        EditorText::Priority => Editor { autoconnect_priority: v, ..e },
        EditorText::Zone => Editor { zone: v, ..e },
        EditorText::DnsSearch => Editor { dns_search: v, ..e },
        EditorText::Dns => Editor { dns: v, ..e },
        EditorText::WgPrivateKey => Editor { wg_private_key: v, ..e },
        EditorText::WgAddress => Editor { wg_address: v, ..e },
        EditorText::WgDns => Editor { wg_dns: v, ..e },
        EditorText::WgMtu => Editor { wg_mtu: v, ..e },
    }
}

/// A text field of a WireGuard peer row.
#[derive(Debug, Clone, Copy, PartialEq, Eq, Structural)]
pub enum PeerText {
    /// Public key.
    PublicKey,
    /// Endpoint.
    Endpoint,
    /// Allowed IPs.
    AllowedIps,
    /// Pre-shared key.
    PresharedKey,
    /// Persistent keepalive.
    Keepalive,
}

/// The peer row with text field `f` set to `v`.
pub open spec fn peer_with_text(p: WgPeerForm, f: PeerText, v: String) -> WgPeerForm {
    match f {
        PeerText::PublicKey => WgPeerForm { public_key: v, ..p },
        PeerText::Endpoint => WgPeerForm { endpoint: v, ..p },
        PeerText::AllowedIps => WgPeerForm { allowed_ips: v, ..p },
        PeerText::PresharedKey => WgPeerForm { preshared_key: v, ..p },
        PeerText::Keepalive => WgPeerForm { persistent_keepalive: v, ..p },
    }
}

/// The backend WireGuard spec a save produces: the interface fields trimmed and one
/// peer spec per row.
pub open spec fn wireguard_save_spec(s: NewWireGuard, e: Editor) -> bool {
    &&& s.name@ == trim(e.name@)
    &&& s.autoconnect == e.autoconnect
    &&& s.private_key@ == trim(e.wg_private_key@)
    &&& s.address@ == trim(e.wg_address@)
    &&& s.dns@ == trim(e.wg_dns@)
    &&& s.mtu@ == trim(e.wg_mtu@)
    &&& s.peers@.len() == e.wg_peers@.len()
    &&& forall|i: int| 0 <= i < s.peers@.len() ==> peer_spec_of(#[trigger] s.peers@[i], e.wg_peers@[i])
}

/// The backend plugin-VPN spec a save produces: text fields trimmed, the priority
/// parsed (0 when it is not a number), the data rows as they are.
pub open spec fn vpn_save_spec(s: NewVpn, e: Editor, service_type: String) -> bool {
    &&& s.name@ == trim(e.name@)
    &&& s.service_type == service_type
    &&& s.autoconnect == e.autoconnect
    &&& s.autoconnect_priority == (match parse_i32_spec(trim(e.autoconnect_priority@)) {
        Some(p) => p,
        None => 0,
    })
    &&& s.metered == e.metered
    &&& s.zone@ == trim(e.zone@)
    &&& s.never_default == e.never_default
    &&& s.dns_search@ == trim(e.dns_search@)
    &&& s.dns@ == trim(e.dns@)
    &&& s.data@ == e.data@
}

impl Editor {
    /// Set a text field.
    pub fn set_text(&mut self, f: EditorText, v: String)
        ensures
            *final(self) == with_text(*old(self), f, v),
    {
        match f {
            EditorText::Name => self.name = v,
            EditorText::Priority => self.autoconnect_priority = v,
            EditorText::Zone => self.zone = v,
            EditorText::DnsSearch => self.dns_search = v,
            EditorText::Dns => self.dns = v,
            EditorText::WgPrivateKey => self.wg_private_key = v,
            EditorText::WgAddress => self.wg_address = v,
            EditorText::WgDns => self.wg_dns = v,
            EditorText::WgMtu => self.wg_mtu = v,
        }
    }

    /// Set a text field of peer row `index` (ignored when there is no such row).
    pub fn set_peer_text(&mut self, index: usize, f: PeerText, v: String)
        ensures
            final(self).wg_peers@ == (if index < old(self).wg_peers@.len() {
                old(self).wg_peers@.update(index as int, peer_with_text(old(self).wg_peers@[index as int], f, v))
            } else {
                old(self).wg_peers@
            }),
            *final(self) == (Editor { wg_peers: final(self).wg_peers, ..*old(self) }),
    {
        if index < self.wg_peers.len() {
            let mut p = self.wg_peers.remove(index);
            match f {
                PeerText::PublicKey => p.public_key = v,
                PeerText::Endpoint => p.endpoint = v,
                PeerText::AllowedIps => p.allowed_ips = v,
                PeerText::PresharedKey => p.preshared_key = v,
                PeerText::Keepalive => p.persistent_keepalive = v,
            }
            self.wg_peers.insert(index, p);
            assert(self.wg_peers@ =~= old(self).wg_peers@.update(index as int, peer_with_text(old(self).wg_peers@[index as int], f, v)));
        }
    }

    /// Add an empty peer row.
    pub fn add_peer(&mut self)
        ensures
            final(self).wg_peers@.len() == old(self).wg_peers@.len() + 1,
            final(self).wg_peers@.drop_last() == old(self).wg_peers@,
            blank_row(final(self).wg_peers@.last()),
            *final(self) == (Editor { wg_peers: final(self).wg_peers, ..*old(self) }),
    {
        self.wg_peers.push(WgPeerForm::empty());
        assert(self.wg_peers@.drop_last() =~= old(self).wg_peers@);
    }

    /// Remove peer row `index`, keeping at least one row.
    pub fn remove_peer(&mut self, index: usize)
        ensures
            final(self).wg_peers@ == (if old(self).wg_peers@.len() > 1 && index < old(self).wg_peers@.len() {
                old(self).wg_peers@.remove(index as int)
            } else {
                old(self).wg_peers@
            }),
            *final(self) == (Editor { wg_peers: final(self).wg_peers, ..*old(self) }),
    {
        if self.wg_peers.len() > 1 && index < self.wg_peers.len() {
            self.wg_peers.remove(index);
        }
    }

    /// Set the key (`value == false`) or the value (`value == true`) of data row
    /// `index` (ignored when there is no such row).
    pub fn set_row(&mut self, index: usize, value: bool, text: String)
        ensures
            final(self).data@ == (if index < old(self).data@.len() {
                old(self).data@.update(
                    index as int,
                    if value {
                        (old(self).data@[index as int].0, text)
                    } else {
                        (text, old(self).data@[index as int].1)
                    },
                )
            } else {
                old(self).data@
            }),
            *final(self) == (Editor { data: final(self).data, ..*old(self) }),
    {
        if index < self.data.len() {
            let (k, v) = self.data.remove(index);
            let row = if value {
                (k, text)
            } else {
                (text, v)
            };
            self.data.insert(index, row);
            assert(self.data@ =~= old(self).data@.update(index as int, row));
        }
    }

    /// Add an empty data row.
    pub fn add_row(&mut self)
        ensures
            final(self).data@.len() == old(self).data@.len() + 1,
            final(self).data@.drop_last() == old(self).data@,
            final(self).data@.last().0@.len() == 0,
            final(self).data@.last().1@.len() == 0,
            *final(self) == (Editor { data: final(self).data, ..*old(self) }),
    {
        self.data.push((empty_string(), empty_string()));
        assert(self.data@.drop_last() =~= old(self).data@);
    }

    /// Remove data row `index` (ignored when there is no such row).
    pub fn remove_row(&mut self, index: usize)
        ensures
            final(self).data@ == (if index < old(self).data@.len() {
                old(self).data@.remove(index as int)
            } else {
                old(self).data@
            }),
            *final(self) == (Editor { data: final(self).data, ..*old(self) }),
    {
        if index < self.data.len() {
            self.data.remove(index);
        }
    }

    /// Choose the WireGuard type: the WireGuard form, with one blank peer row when it
    /// has none.
    pub fn select_wireguard(&mut self)
        ensures
            final(self).is_wireguard,
            opt_string_view_of(final(self).service_type) == Some("wireguard"@),
            final(self).kind_name@ == "WireGuard"@,
            final(self).wg_peers@ == (if old(self).wg_peers@.len() == 0 {
                seq![final(self).wg_peers@[0]]
            } else {
                old(self).wg_peers@
            }),
            old(self).wg_peers@.len() == 0 ==> blank_row(final(self).wg_peers@[0]),
            *final(self) == (Editor {
                is_wireguard: true,
                service_type: final(self).service_type,
                kind_name: final(self).kind_name,
                wg_peers: final(self).wg_peers,
                ..*old(self)
            }),
    {
        self.is_wireguard = true;
        self.service_type = Some(owned("wireguard"));
        self.kind_name = owned("WireGuard");
        if self.wg_peers.len() == 0 {
            self.wg_peers.push(WgPeerForm::empty());
            assert(self.wg_peers@ =~= seq![self.wg_peers@[0]]);
        }
    }

    /// The WireGuard spec this editor saves.
    pub fn wireguard_spec(&self) -> (r: NewWireGuard)
        ensures
            wireguard_save_spec(r, *self),
    {
        let mut peers: Vec<NewWgPeer> = Vec::new();
        let mut i: usize = 0;
        while i < self.wg_peers.len()
            invariant
                i <= self.wg_peers@.len(),
                peers@.len() == i,
                forall|j: int| 0 <= j < i ==> peer_spec_of(#[trigger] peers@[j], self.wg_peers@[j]),
            decreases self.wg_peers.len() - i,
        {
            peers.push(self.wg_peers[i].to_spec());
            i += 1;
        }
        NewWireGuard {
            name: trimmed(&self.name),
            autoconnect: self.autoconnect,
            private_key: trimmed(&self.wg_private_key),
            address: trimmed(&self.wg_address),
            dns: trimmed(&self.wg_dns),
            mtu: trimmed(&self.wg_mtu),
            peers,
        }
    }

    /// The plugin-VPN spec this editor saves for `service_type`.
    pub fn vpn_spec(&self, service_type: String) -> (r: NewVpn)
        ensures
            vpn_save_spec(r, *self, service_type),
    {
        let prio = trim_chars(&chars_of(self.autoconnect_priority.as_str()));
        let autoconnect_priority = match parse_i32(&prio) {
            Some(p) => p,
            None => 0,
        };
        NewVpn {
            name: trimmed(&self.name),
            service_type,
            autoconnect: self.autoconnect,
            autoconnect_priority,
            metered: self.metered,
            zone: trimmed(&self.zone),
            never_default: self.never_default,
            dns_search: trimmed(&self.dns_search),
            dns: trimmed(&self.dns),
            data: clone_pairs(&self.data),
        }
    }
}

} // verus!
