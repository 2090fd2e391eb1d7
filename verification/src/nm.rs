//! The NetworkManager side of the backend, as plain values: mapping NM's device state
//! and VPN settings onto the UI model, assembling the connection list from what NM
//! reports, and the small decisions around NM calls (import routing, duplicate names,
//! failure signals, editor prefill).
use vstd::prelude::*;

use crate::model::{
    display_sorted, key_view, lowercase, opt_view, sort_connections, sorted_by,
    stable_permutation, stable_permutation_by, stable_sort_by_keys, NewWgPeer, VpnConnection,
    VpnEdit, VpnKind, VpnStatus, WgEdit,
};
use crate::text::{
    chars_eq_str, chars_of, decimal, push_all, push_decimal, push_str, string_from,
    string_views, trim, trim_chars,
};
use crate::vpn_auth::{
    label_from_service, pair_views, pairs_map, service_label, StringMap,
};

verus! {

/// NetworkManager's device state, as reported for a VPN.
#[derive(Debug, Clone, Copy, PartialEq, Eq, Structural)]
pub enum DeviceState {
    /// Not managed by NetworkManager.
    Unmanaged,
    /// Managed but not available.
    Unavailable,
    /// Available but not connected.
    Disconnected,
    /// Preparing to connect.
    Prepare,
    /// Being configured.
    Config,
    /// Needs authentication credentials.
    NeedAuth,
    /// Requesting IP configuration.
    IpConfig,
    /// Verifying IP connectivity.
    IpCheck,
    /// Waiting for secondary connections.
    Secondaries,
    /// Fully connected.
    Activated,
    /// Disconnecting.
    Deactivating,
    /// Connection failed.
    Failed,
    /// Any other state, with its raw code.
    Other(u32),
}

/// The coarse status of a VPN: the active flag decides whether it is up at all; the
/// device state only refines how an active VPN is up.
pub open spec fn status_from_spec(active: bool, state: DeviceState) -> VpnStatus {
    if !active {
        VpnStatus::Disconnected
    } else {
        match state {
            DeviceState::Activated => VpnStatus::Connected,
            DeviceState::Prepare | DeviceState::Config | DeviceState::NeedAuth
            | DeviceState::IpConfig | DeviceState::IpCheck | DeviceState::Secondaries =>
                VpnStatus::Connecting,
            DeviceState::Deactivating => VpnStatus::Disconnecting,
            DeviceState::Failed | DeviceState::Disconnected | DeviceState::Unavailable
            | DeviceState::Unmanaged => VpnStatus::Disconnected,
            DeviceState::Other(_) => VpnStatus::Unknown,
        }
    }
}

/// Map a device state (+ active flag) onto the coarse [`VpnStatus`].
///
/// Inactive saved profiles are reported with a placeholder state, so the active flag
/// is the primary signal.
pub fn status_from(active: bool, state: DeviceState) -> (r: VpnStatus)
    ensures
        r == status_from_spec(active, state),
{
    if !active {
        return VpnStatus::Disconnected;
    }
    match state {
        DeviceState::Activated => VpnStatus::Connected,
        DeviceState::Prepare | DeviceState::Config | DeviceState::NeedAuth
        | DeviceState::IpConfig | DeviceState::IpCheck | DeviceState::Secondaries =>
            VpnStatus::Connecting,
        DeviceState::Deactivating => VpnStatus::Disconnecting,
        DeviceState::Failed | DeviceState::Disconnected | DeviceState::Unavailable
        | DeviceState::Unmanaged => VpnStatus::Disconnected,
        DeviceState::Other(_) => VpnStatus::Unknown,
    }
}

/// The protocol of a VPN with the settings the list shows.
pub enum VpnTypeInfo {
    /// Kernel WireGuard: its first peer's endpoint.
    WireGuard { endpoint: Option<String> },
    /// OpenVPN: its remote.
    OpenVpn { remote: Option<String> },
    /// OpenConnect: its gateway.
    OpenConnect { gateway: Option<String> },
    /// strongSwan: its gateway address.
    StrongSwan { address: Option<String> },
    /// PPTP: its gateway.
    Pptp { gateway: Option<String> },
    /// L2TP: its gateway.
    L2tp { gateway: Option<String> },
    /// Any other plugin: its service type and raw `vpn.data` (distinct keys).
    Generic { service_type: String, data: Vec<(String, String)> },
    /// A protocol this library does not model.
    Unmodeled,
}

/// The value of the first pair with key `key`.
pub open spec fn data_lookup(data: Seq<(String, String)>, key: Seq<char>) -> Option<Seq<char>>
    decreases data.len(),
{
    if data.len() == 0 {
        None
    } else if data[0].0@ == key {
        Some(data[0].1@)
    } else {
        data_lookup(data.drop_first(), key)
    }
}

/// The friendly protocol label and the gateway of a VPN; a generic plugin is labelled
/// by its service type and its gateway is `vpn.data`'s `gateway`, else `remote`, else
/// `host`.
pub open spec fn label_gateway_spec(t: VpnTypeInfo) -> (Seq<char>, Option<Seq<char>>) {
    match t {
        VpnTypeInfo::WireGuard { endpoint } => ("WireGuard"@, opt_view(endpoint)),
        VpnTypeInfo::OpenVpn { remote } => ("OpenVPN"@, opt_view(remote)),
        VpnTypeInfo::OpenConnect { gateway } => ("OpenConnect"@, opt_view(gateway)),
        VpnTypeInfo::StrongSwan { address } => ("strongSwan"@, opt_view(address)),
        VpnTypeInfo::Pptp { gateway } => ("PPTP"@, opt_view(gateway)),
        VpnTypeInfo::L2tp { gateway } => ("L2TP"@, opt_view(gateway)),
        VpnTypeInfo::Generic { service_type, data } => (
            service_label(service_type@),
            if data_lookup(data@, "gateway"@) is Some {
                data_lookup(data@, "gateway"@)
            } else if data_lookup(data@, "remote"@) is Some {
                data_lookup(data@, "remote"@)
            } else {
                data_lookup(data@, "host"@)
            },
        ),
        VpnTypeInfo::Unmodeled => ("VPN"@, None),
    }
}

/// A copy of an optional string.
pub fn clone_opt_string(o: &Option<String>) -> (r: Option<String>)
    ensures
        opt_view(r) == opt_view(*o),
{
    match o {
        Some(s) => Some(s.clone()),
        None => None,
    }
}

/// A copy of a list of strings.
pub fn clone_strings(v: &Vec<String>) -> (r: Vec<String>)
    ensures
        string_views(r@) == string_views(v@),
{
    let mut r: Vec<String> = Vec::new();
    let mut i: usize = 0;
    while i < v.len()
        invariant
            i <= v@.len(),
            string_views(r@) == string_views(v@).take(i as int),
        decreases v.len() - i,
    {
        let ghost before = string_views(r@);
        r.push(v[i].clone());
        assert(string_views(r@) =~= before.push(v@[i as int]@));
        assert(string_views(v@).take(i + 1) =~= string_views(v@).take(i as int).push(
            v@[i as int]@,
        ));
        i += 1;
    }
    assert(string_views(v@).take(v@.len() as int) =~= string_views(v@));
    r
}

/// The value of `key` in `data` (first match).
fn data_get(data: &Vec<(String, String)>, key: &str) -> (r: Option<String>)
    ensures
        opt_view(r) == data_lookup(data@, key@),
{
    let mut i: usize = 0;
    assert(data@.skip(0) =~= data@);
    while i < data.len()
        invariant
            i <= data@.len(),
            data_lookup(data@, key@) == data_lookup(data@.skip(i as int), key@),
        decreases data.len() - i,
    {
        let k = chars_of(data[i].0.as_str());
        assert(data@.skip(i as int)[0] == data@[i as int]);
        if chars_eq_str(&k, key) {
            return Some(data[i].1.clone());
        }
        assert(data@.skip(i as int).drop_first() =~= data@.skip(i + 1));
        i += 1;
    }
    None
}

fn owned(s: &str) -> (r: String)
    ensures
        r@ == s@,
{
    string_from(&chars_of(s))
}

/// Derive a friendly protocol label and gateway/remote address from a VPN's type.
pub fn label_and_gateway(vpn_type: &VpnTypeInfo) -> (r: (String, Option<String>))
    ensures
        (r.0@, opt_view(r.1)) == label_gateway_spec(*vpn_type),
{
    match vpn_type {
        VpnTypeInfo::WireGuard { endpoint } => (owned("WireGuard"), clone_opt_string(endpoint)),
        VpnTypeInfo::OpenVpn { remote } => (owned("OpenVPN"), clone_opt_string(remote)),
        VpnTypeInfo::OpenConnect { gateway } => (owned("OpenConnect"), clone_opt_string(gateway)),
        VpnTypeInfo::StrongSwan { address } => (owned("strongSwan"), clone_opt_string(address)),
        VpnTypeInfo::Pptp { gateway } => (owned("PPTP"), clone_opt_string(gateway)),
        VpnTypeInfo::L2tp { gateway } => (owned("L2TP"), clone_opt_string(gateway)),
        VpnTypeInfo::Generic { service_type, data } => {
            let gateway = match data_get(data, "gateway") {
                Some(g) => Some(g),
                None => match data_get(data, "remote") {
                    Some(r) => Some(r),
                    None => data_get(data, "host"),
                },
            };
            (label_from_service(service_type.as_str()), gateway)
        },
        VpnTypeInfo::Unmodeled => (owned("VPN"), None),
    }
}

/// A VPN as NetworkManager lists it.
pub struct VpnRecord {
    /// Connection UUID.
    pub uuid: String,
    /// Connection display name.
    pub id: String,
    /// Kernel WireGuard (else a plugin VPN).
    pub is_wireguard: bool,
    /// `vpn.service-type` (empty for WireGuard).
    pub service_type: String,
    /// Whether the VPN is activated.
    pub active: bool,
    /// Device / active-connection state.
    pub state: DeviceState,
    /// Interface name when active.
    pub interface: Option<String>,
    /// Protocol-specific settings.
    pub vpn_type: VpnTypeInfo,
}

/// The index of the last pair whose key is `key`, or `-1`.
pub open spec fn last_index_for<T>(pairs: Seq<(String, T)>, key: Seq<char>) -> int
    decreases pairs.len(),
{
    if pairs.len() == 0 {
        -1
    } else if pairs.last().0@ == key {
        pairs.len() - 1
    } else {
        last_index_for(pairs.drop_last(), key)
    }
}

proof fn lemma_last_index_for_bound<T>(pairs: Seq<(String, T)>, key: Seq<char>)
    ensures
        -1 <= last_index_for(pairs, key) < pairs.len(),
        last_index_for(pairs, key) >= 0 ==> pairs[last_index_for(pairs, key)].0@ == key,
    decreases pairs.len(),
{
    if pairs.len() > 0 && pairs.last().0@ != key {
        lemma_last_index_for_bound(pairs.drop_last(), key);
    }
}

/// The index of the last pair whose key is `key` (maps built from the pairs keep the
/// last value of a key).
fn find_last<T>(pairs: &Vec<(String, T)>, key: &String) -> (r: Option<usize>)
    ensures
        match r {
            Some(i) => i as int == last_index_for(pairs@, key@),
            None => last_index_for(pairs@, key@) == -1,
        },
{
    let kv = chars_of(key.as_str());
    let mut i: usize = pairs.len();
    assert(pairs@.take(pairs@.len() as int) =~= pairs@);
    while i > 0
        invariant
            i <= pairs@.len(),
            kv@ == key@,
            last_index_for(pairs@, key@) == last_index_for(pairs@.take(i as int), key@),
        decreases i,
    {
        let k = chars_of(pairs[i - 1].0.as_str());
        assert(pairs@.take(i as int).last() == pairs@[i - 1]);
        if chars_eq_str(&k, key.as_str()) {
            return Some(i - 1);
        }
        assert(pairs@.take(i as int).drop_last() =~= pairs@.take(i - 1));
        i -= 1;
    }
    None
}

/// The per-UUID information gathered next to the VPN list: live addresses
/// (IPv4, IPv6), saved profile info (autoconnect, last-used time), DNS servers and
/// traffic counters (received, sent). In each list the last entry for a UUID counts.
pub struct ConnectionExtras {
    /// UUID to (IPv4, IPv6) of active connections.
    pub addresses: Vec<(String, (Option<String>, Option<String>))>,
    /// UUID to (autoconnect, last-used Unix time) of saved profiles.
    pub saved: Vec<(String, (bool, u64))>,
    /// UUID to the DNS servers of an active connection.
    pub dns: Vec<(String, Vec<String>)>,
    /// UUID to (received, sent) bytes of an active connection.
    pub traffic: Vec<(String, (u64, u64))>,
}

/// `c` is the UI form of `v` with the extras that `x` holds for its UUID (defaults
/// when it holds none).
pub open spec fn converted(c: VpnConnection, v: VpnRecord, x: ConnectionExtras) -> bool {
    let ai = last_index_for(x.addresses@, v.uuid@);
    let si = last_index_for(x.saved@, v.uuid@);
    let di = last_index_for(x.dns@, v.uuid@);
    let ti = last_index_for(x.traffic@, v.uuid@);
    &&& c.uuid@ == v.uuid@
    &&& c.id@ == v.id@
    &&& c.kind == (if v.is_wireguard {
        VpnKind::WireGuard
    } else {
        VpnKind::Plugin
    })
    &&& c.status == status_from_spec(v.active, v.state)
    &&& opt_view(c.service_type) == (if v.service_type@.len() == 0 {
        None
    } else {
        Some(v.service_type@)
    })
    &&& (c.type_label@, opt_view(c.gateway)) == label_gateway_spec(v.vpn_type)
    &&& if ai >= 0 {
        opt_view(c.ip4) == opt_view(x.addresses@[ai].1.0) && opt_view(c.ip6) == opt_view(
            x.addresses@[ai].1.1,
        )
    } else {
        c.ip4 is None && c.ip6 is None
    }
    &&& if si >= 0 {
        c.autoconnect == x.saved@[si].1.0 && c.last_used == x.saved@[si].1.1
    } else {
        !c.autoconnect && c.last_used == 0
    }
    &&& if di >= 0 {
        string_views(c.dns_servers@) == string_views(x.dns@[di].1@)
    } else {
        c.dns_servers@.len() == 0
    }
    &&& if ti >= 0 {
        c.rx_bytes == x.traffic@[ti].1.0 && c.tx_bytes == x.traffic@[ti].1.1
    } else {
        c.rx_bytes == 0 && c.tx_bytes == 0
    }
}

/// Convert a VPN record into the UI-facing type, enriched with addresses, saved-profile
/// info, DNS servers and traffic from the extras.
pub fn convert(v: &VpnRecord, extras: &ConnectionExtras) -> (r: VpnConnection)
    ensures
        converted(r, *v, *extras),
{
    proof {
        lemma_last_index_for_bound(extras.addresses@, v.uuid@);
        lemma_last_index_for_bound(extras.saved@, v.uuid@);
        lemma_last_index_for_bound(extras.dns@, v.uuid@);
        lemma_last_index_for_bound(extras.traffic@, v.uuid@);
    }
    let kind = if v.is_wireguard {
        VpnKind::WireGuard
    } else {
        VpnKind::Plugin
    };
    let service_type = if v.service_type.as_str().is_empty() {
        None
    } else {
        Some(v.service_type.clone())
    };
    let (type_label, gateway) = label_and_gateway(&v.vpn_type);
    let (ip4, ip6) = match find_last(&extras.addresses, &v.uuid) {
        Some(i) => (
            clone_opt_string(&extras.addresses[i].1.0),
            clone_opt_string(&extras.addresses[i].1.1),
        ),
        None => (None, None),
    };
    let (autoconnect, last_used) = match find_last(&extras.saved, &v.uuid) {
        Some(i) => extras.saved[i].1,
        None => (false, 0),
    };
    let dns_servers = match find_last(&extras.dns, &v.uuid) {
        Some(i) => clone_strings(&extras.dns[i].1),
        None => Vec::new(),
    };
    let (rx_bytes, tx_bytes) = match find_last(&extras.traffic, &v.uuid) {
        Some(i) => extras.traffic[i].1,
        None => (0, 0),
    };
    VpnConnection {
        uuid: v.uuid.clone(),
        id: v.id.clone(),
        kind,
        status: status_from(v.active, v.state),
        service_type,
        last_used,
        type_label,
        gateway,
        ip4,
        ip6,
        dns_servers,
        rx_bytes,
        tx_bytes,
        autoconnect,
    }
}

/// The connection list: every record converted with its extras, then ordered for
/// display (active first, then most recently used, then by name; stable).
pub fn assemble_connections(records: &Vec<VpnRecord>, extras: &ConnectionExtras) -> (r: Vec<
    VpnConnection,
>)
    ensures
        display_sorted(r@),
        exists|conv: Seq<VpnConnection>, p: Seq<int>|
            {
                &&& conv.len() == records@.len()
                &&& forall|i: int|
                    0 <= i < conv.len() ==> converted(#[trigger] conv[i], records@[i], *extras)
                &&& stable_permutation(conv, r@, p)
            },
{
    let mut list: Vec<VpnConnection> = Vec::new();
    let mut i: usize = 0;
    while i < records.len()
        invariant
            i <= records@.len(),
            list@.len() == i,
            forall|j: int| 0 <= j < i ==> converted(#[trigger] list@[j], records@[j], *extras),
        decreases records.len() - i,
    {
        list.push(convert(&records[i], extras));
        i += 1;
    }
    let ghost conv = list@;
    sort_connections(&mut list);
    proof {
        let p = choose|p: Seq<int>| stable_permutation(conv, list@, p);
        assert(stable_permutation(conv, list@, p));
    }
    list
}

/// `NM_VPN_CONNECTION_STATE_FAILED`: the VPN state a failure signal carries.
pub const VPN_STATE_FAILED: u32 = 6;

/// A VPN activation failure with its NetworkManager reason code.
#[derive(Debug, Clone)]
pub struct VpnFailure {
    /// The connection's display name (best-effort; falls back to "VPN").
    pub name: String,
    /// `NM_VPN_CONNECTION_STATE_REASON_*` code.
    pub reason: u32,
}

/// Whether a `VpnStateChanged` signal reports a failed activation.
pub fn is_failure_state(state: u32) -> (r: bool)
    ensures
        r == (state == VPN_STATE_FAILED),
{
    state == VPN_STATE_FAILED
}

impl VpnFailure {
    /// A failure of the connection named `name` (when it could be read), else of "VPN".
    pub fn new(name: Option<String>, reason: u32) -> (r: VpnFailure)
        ensures
            r.reason == reason,
            r.name@ == (match name {
                Some(n) => n@,
                None => "VPN"@,
            }),
    {
        let name = match name {
            Some(n) => n,
            None => owned("VPN"),
        };
        VpnFailure { name, reason }
    }
}

/// The live NetworkManager backend handle. Stateless: it opens a fresh connection per
/// call.
#[derive(Debug, Default, Clone, Copy)]
pub struct NmBackend;

impl NmBackend {
    /// Create a backend handle.
    pub fn new() -> (r: NmBackend) {
        NmBackend
    }
}

/// How an imported file is handed to NetworkManager.
#[derive(Debug, Clone, Copy, PartialEq, Eq, Structural)]
pub enum ImportKind {
    /// NetworkManager's OpenVPN importer.
    OpenVpn,
    /// NetworkManager's WireGuard importer.
    WireGuard,
}

/// A file extension that names an OpenVPN config, ignoring ASCII case.
pub open spec fn is_ovpn_extension(ext: Seq<char>) -> bool {
    crate::text::eq_ignore_ascii_case_spec(ext, "ovpn"@)
}

/// The importer chosen by extension alone: `.ovpn` (any ASCII case) is OpenVPN; any
/// other extension (or none) needs the content sniffed.
pub fn import_kind_by_extension(ext: &str) -> (r: Option<ImportKind>)
    ensures
        r == (if is_ovpn_extension(ext@) {
            Some(ImportKind::OpenVpn)
        } else {
            None
        }),
{
    let e = chars_of(ext);
    let ovpn = chars_of("ovpn");
    if crate::text::eq_ignore_ascii_case(&e, &ovpn) {
        Some(ImportKind::OpenVpn)
    } else {
        None
    }
}

/// The importer chosen by content: WireGuard when the file has an `[Interface]`
/// section, else OpenVPN.
pub fn import_kind_by_content(content: &str) -> (r: ImportKind)
    ensures
        r == (if crate::model::wireguard_conf_spec(content@) {
            ImportKind::WireGuard
        } else {
            ImportKind::OpenVpn
        }),
{
    if crate::model::looks_like_wireguard_conf(content) {
        ImportKind::WireGuard
    } else {
        ImportKind::OpenVpn
    }
}

/// The name of a duplicated connection: `<name> (copy)`.
pub fn duplicate_name(old_id: &str) -> (r: String)
    ensures
        r@ == old_id@ + " (copy)"@,
{
    let mut out = chars_of(old_id);
    push_str(&mut out, " (copy)");
    string_from(&out)
}

/// Whether a setting is carried into a duplicate: the identity fields of the
/// `connection` section (`uuid`, `timestamp`, `id`) are dropped so NM assigns new ones.
pub fn keep_in_duplicate(section: &str, key: &str) -> (r: bool)
    ensures
        r == !(section@ == "connection"@ && (key@ == "uuid"@ || key@ == "timestamp"@ || key@
            == "id"@)),
{
    let s = chars_of(section);
    let k = chars_of(key);
    !(chars_eq_str(&s, "connection") && (chars_eq_str(&k, "uuid") || chars_eq_str(&k, "timestamp")
        || chars_eq_str(&k, "id")))
}

/// The items joined with `sep` between them.
pub open spec fn join_spec(items: Seq<Seq<char>>, sep: Seq<char>) -> Seq<char>
    decreases items.len(),
{
    if items.len() == 0 {
        Seq::empty()
    } else if items.len() == 1 {
        items[0]
    } else {
        join_spec(items.drop_last(), sep) + sep + items.last()
    }
}

/// `items.join(sep)`.
pub fn join_strings(items: &Vec<String>, sep: &str) -> (r: String)
    ensures
        r@ == join_spec(string_views(items@), sep@),
{
    let mut out: Vec<char> = Vec::new();
    let mut i: usize = 0;
    while i < items.len()
        invariant
            i <= items@.len(),
            out@ == join_spec(string_views(items@).take(i as int), sep@),
        decreases items.len() - i,
    {
        let ghost prev = string_views(items@).take(i as int);
        assert(string_views(items@).take(i + 1).drop_last() =~= prev);
        if i > 0 {
            push_str(&mut out, sep);
        }
        let v = chars_of(items[i].as_str());
        push_all(&mut out, &v);
        proof {
            if i == 0 {
                assert(out@ =~= string_views(items@).take(1)[0]);
            }
        }
        i += 1;
    }
    assert(string_views(items@).take(items@.len() as int) =~= string_views(items@));
    string_from(&out)
}

/// A positive number in decimal, or the empty string for none or zero.
pub open spec fn positive_text(n: Option<u32>) -> Seq<char> {
    match n {
        Some(v) => if v > 0 {
            decimal(v as nat)
        } else {
            Seq::empty()
        },
        None => Seq::empty(),
    }
}

/// A positive number in decimal, or the empty string for none or zero.
pub fn positive_to_text(n: Option<u32>) -> (r: String)
    ensures
        r@ == positive_text(n),
{
    let mut out: Vec<char> = Vec::new();
    match n {
        Some(v) => if v > 0 {
            push_decimal(&mut out, v as u64);
        },
        None => {},
    }
    assert(out@ =~= positive_text(n));
    string_from(&out)
}

/// An address with its prefix length: `addr/prefix`, the prefix defaulting to 32.
pub open spec fn address_with_prefix_spec(address: Seq<char>, prefix: Option<u32>) -> Seq<char> {
    address + seq!['/'] + decimal(
        (match prefix {
            Some(p) => p,
            None => 32,
        }) as nat,
    )
}

/// `address/prefix` for an `address-data` entry, the prefix defaulting to 32.
pub fn address_with_prefix(address: &str, prefix: Option<u32>) -> (r: String)
    ensures
        r@ == address_with_prefix_spec(address@, prefix),
{
    let mut out = chars_of(address);
    out.push('/');
    let p: u32 = match prefix {
        Some(p) => p,
        None => 32,
    };
    push_decimal(&mut out, p as u64);
    string_from(&out)
}

/// An IPv4 address in dotted-quad form.
pub open spec fn ipv4_text_spec(o: [u8; 4]) -> Seq<char> {
    decimal(o[0] as nat) + seq!['.'] + decimal(o[1] as nat) + seq!['.'] + decimal(o[2] as nat)
        + seq!['.'] + decimal(o[3] as nat)
}

/// An IPv4 address (its four octets, most significant first) in dotted-quad form.
pub fn ipv4_text(octets: [u8; 4]) -> (r: String)
    ensures
        r@ == ipv4_text_spec(octets),
{
    let mut out: Vec<char> = Vec::new();
    push_decimal(&mut out, octets[0] as u64);
    out.push('.');
    push_decimal(&mut out, octets[1] as u64);
    out.push('.');
    push_decimal(&mut out, octets[2] as u64);
    out.push('.');
    push_decimal(&mut out, octets[3] as u64);
    assert(out@ =~= ipv4_text_spec(octets));
    string_from(&out)
}

/// The view of an optional string, empty when absent.
pub open spec fn or_empty(o: Option<String>) -> Seq<char> {
    match o {
        Some(s) => s@,
        None => Seq::empty(),
    }
}

fn unwrap_or_empty(o: Option<String>) -> (r: String)
    ensures
        r@ == or_empty(o),
{
    match o {
        Some(s) => s,
        None => string_from(&Vec::new()),
    }
}

/// An editor peer row from a saved peer's fields: missing strings are empty, the
/// allowed IPs are joined with `", "`, a keepalive of zero is left blank.
pub fn peer_from_fields(
    public_key: Option<String>,
    endpoint: Option<String>,
    allowed_ips: &Vec<String>,
    preshared_key: Option<String>,
    keepalive: Option<u32>,
) -> (r: NewWgPeer)
    ensures
        r.public_key@ == or_empty(public_key),
        r.endpoint@ == or_empty(endpoint),
        r.allowed_ips@ == join_spec(string_views(allowed_ips@), ", "@),
        r.preshared_key@ == or_empty(preshared_key),
        r.persistent_keepalive@ == positive_text(keepalive),
{
    NewWgPeer {
        public_key: unwrap_or_empty(public_key),
        endpoint: unwrap_or_empty(endpoint),
        allowed_ips: join_strings(allowed_ips, ", "),
        preshared_key: unwrap_or_empty(preshared_key),
        persistent_keepalive: positive_to_text(keepalive),
    }
}

/// A saved WireGuard tunnel's editor fields: missing strings are empty, autoconnect
/// defaults to off, addresses and DNS servers are joined with spaces, an MTU of zero
/// is left blank.
pub fn wg_edit_from(
    name: Option<String>,
    autoconnect: Option<bool>,
    private_key: Option<String>,
    addresses: &Vec<String>,
    dns: &Vec<String>,
    mtu: Option<u32>,
    peers: Vec<NewWgPeer>,
) -> (r: WgEdit)
    ensures
        r.name@ == or_empty(name),
        r.autoconnect == (autoconnect == Some(true)),
        r.private_key@ == or_empty(private_key),
        r.address@ == join_spec(string_views(addresses@), " "@),
        r.dns@ == join_spec(string_views(dns@), " "@),
        r.mtu@ == positive_text(mtu),
        r.peers@ == peers@,
{
    WgEdit {
        name: unwrap_or_empty(name),
        autoconnect: match autoconnect {
            Some(b) => b,
            None => false,
        },
        private_key: unwrap_or_empty(private_key),
        address: join_strings(addresses, " "),
        dns: join_strings(dns, " "),
        mtu: positive_to_text(mtu),
        peers,
    }
}

/// The `vpn.data` pairs as the editor shows them: sorted by key.
pub open spec fn data_key_fn() -> spec_fn((String, String)) -> (bool, nat, Seq<char>) {
    |p: (String, String)| (false, 0nat, p.0@)
}

/// The `vpn.data` pairs sorted by key (stably; the keys of a map are distinct).
pub fn sort_data_by_key(data: Vec<(String, String)>) -> (r: Vec<(String, String)>)
    ensures
        sorted_by(r@, data_key_fn()),
        exists|p: Seq<int>| stable_permutation_by(data@, r@, p, data_key_fn()),
{
    let mut data = data;
    let n = data.len();
    let mut keys: Vec<(bool, u64, Vec<char>)> = Vec::new();
    let mut t: usize = 0;
    while t < n
        invariant
            n == data@.len(),
            t <= n,
            keys@.len() == t,
            forall|s: int| 0 <= s < t ==> key_view(#[trigger] keys@[s]) == data_key_fn()(data@[s]),
        decreases n - t,
    {
        keys.push((false, 0, chars_of(data[t].0.as_str())));
        t += 1;
    }
    stable_sort_by_keys(&mut data, keys, Ghost(data_key_fn()));
    data
}

/// The settings of a saved plugin VPN as the editor reads them.
pub struct VpnSettingsRead {
    /// `connection.id`.
    pub name: Option<String>,
    /// `connection.autoconnect`.
    pub autoconnect: Option<bool>,
    /// `connection.autoconnect-priority`.
    pub autoconnect_priority: Option<i32>,
    /// `connection.metered`.
    pub metered: Option<i32>,
    /// `connection.zone`.
    pub zone: Option<String>,
    /// `ipv4.never-default`.
    pub never_default: Option<bool>,
    /// `ipv4.dns-search`.
    pub dns_search: Vec<String>,
    /// The IPv4 then IPv6 DNS servers, as text.
    pub dns: Vec<String>,
    /// `vpn.service-type`.
    pub service_type: Option<String>,
    /// `vpn.data`.
    pub data: Vec<(String, String)>,
}

/// A saved plugin VPN's editor fields: missing strings are empty, missing flags off,
/// missing numbers zero, lists joined with spaces, `vpn.data` sorted by key.
pub fn vpn_edit_from(s: VpnSettingsRead) -> (r: VpnEdit)
    ensures
        r.name@ == or_empty(s.name),
        r.autoconnect == (s.autoconnect == Some(true)),
        r.autoconnect_priority == (match s.autoconnect_priority {
            Some(p) => p,
            None => 0,
        }),
        r.metered == (match s.metered {
            Some(m) => m,
            None => 0,
        }),
        r.zone@ == or_empty(s.zone),
        r.never_default == (s.never_default == Some(true)),
        r.dns_search@ == join_spec(string_views(s.dns_search@), " "@),
        r.dns@ == join_spec(string_views(s.dns@), " "@),
        r.service_type@ == or_empty(s.service_type),
        sorted_by(r.data@, data_key_fn()),
        exists|p: Seq<int>| stable_permutation_by(s.data@, r.data@, p, data_key_fn()),
{
    let dns_search = join_strings(&s.dns_search, " ");
    let dns = join_strings(&s.dns, " ");
    VpnEdit {
        name: unwrap_or_empty(s.name),
        autoconnect: match s.autoconnect {
            Some(b) => b,
            None => false,
        },
        autoconnect_priority: match s.autoconnect_priority {
            Some(p) => p,
            None => 0,
        },
        metered: match s.metered {
            Some(m) => m,
            None => 0,
        },
        zone: unwrap_or_empty(s.zone),
        never_default: match s.never_default {
            Some(b) => b,
            None => false,
        },
        dns_search,
        dns,
        service_type: unwrap_or_empty(s.service_type),
        data: sort_data_by_key(s.data),
    }
}

/// The pairs whose key is not blank.
pub open spec fn nonblank_key_pairs(pairs: Seq<(Seq<char>, Seq<char>)>) -> Seq<(Seq<char>, Seq<char>)> {
    pairs.filter(|p: (Seq<char>, Seq<char>)| trim(p.0).len() > 0)
}

/// The `vpn.data` written for a spec: its pairs without blank keys, a later value of a
/// key replacing an earlier one.
pub fn vpn_data_map(data: &Vec<(String, String)>) -> (r: StringMap)
    ensures
        r.well_formed(),
        r@ == pairs_map(nonblank_key_pairs(pair_views(data@))),
{
    let mut m = StringMap::new();
    let mut i: usize = 0;
    while i < data.len()
        invariant
            i <= data@.len(),
            m.well_formed(),
            m@ == pairs_map(nonblank_key_pairs(pair_views(data@).take(i as int))),
        decreases data.len() - i,
    {
        let ghost pv = pair_views(data@);
        let ghost prev = nonblank_key_pairs(pv.take(i as int));
        assert(pv.take(i + 1).drop_last() =~= pv.take(i as int));
        assert(pv.take(i + 1).last() == pv[i as int]);
        proof {
            reveal(Seq::filter);
        }
        let k = trim_chars(&chars_of(data[i].0.as_str()));
        if k.len() > 0 {
            m.insert(data[i].0.clone(), data[i].1.clone());
            assert(nonblank_key_pairs(pv.take(i + 1)) == prev.push(pv[i as int]));
            assert(prev.push(pv[i as int]).drop_last() =~= prev);
        } else {
            assert(nonblank_key_pairs(pv.take(i + 1)) == prev);
        }
        i += 1;
    }
    assert(pair_views(data@).take(data@.len() as int) =~= pair_views(data@));
    m
}

/// The firewall zone to write when creating a connection: the zone as entered, unless
/// it is blank.
pub fn zone_if_set(zone: &String) -> (r: Option<String>)
    ensures
        opt_view(r) == (if trim(zone@).len() > 0 {
            Some(zone@)
        } else {
            None
        }),
{
    let t = trim_chars(&chars_of(zone.as_str()));
    if t.len() > 0 {
        Some(zone.clone())
    } else {
        None
    }
}

} // verus!
