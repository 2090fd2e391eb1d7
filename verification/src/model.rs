//! UI-facing VPN types and the pure logic around them: status aggregation, toggle
//! decisions, display formatting, display ordering and editor-field parsing.
use vstd::prelude::*;

use crate::text::{
    chars_of, decimal, eq_ignore_ascii_case, eq_ignore_ascii_case_spec, lines, lines_of,
    parse_u32, parse_u32_spec, push_decimal, push_str, push_two_digits, split_fields,
    split_fields_spec, string_from, string_views, trim, trim_chars, two_digits, vec_views,
};

verus! {

/// Whether a connection is a NetworkManager VPN plugin or a native WireGuard tunnel.
#[derive(Debug, Clone, Copy, PartialEq, Eq, Structural)]
pub enum VpnKind {
    /// A VPN served by an NM plugin (OpenVPN, OpenConnect, ...).
    Plugin,
    /// A native (kernel) WireGuard tunnel.
    WireGuard,
}

/// Coarse connection status, collapsed from NetworkManager's finer state machine.
#[derive(Debug, Clone, Copy, PartialEq, Eq, Structural)]
pub enum VpnStatus {
    /// Not active.
    Disconnected,
    /// Activating (any of prepare / need-auth / connect / ip-config).
    Connecting,
    /// Fully activated.
    Connected,
    /// Deactivating.
    Disconnecting,
    /// Active but in a state that is not mapped explicitly.
    Unknown,
}

/// A status is active when the connection is up or transitioning.
pub open spec fn status_active(s: VpnStatus) -> bool {
    s != VpnStatus::Disconnected
}

impl VpnStatus {
    /// True when the connection is up or transitioning (not plain disconnected).
    pub fn is_active(self) -> (r: bool)
        ensures
            r == status_active(self),
    {
        match self {
            VpnStatus::Disconnected => false,
            _ => true,
        }
    }
}

/// A single VPN or WireGuard connection profile with its current status and detail.
#[derive(Debug, Clone, PartialEq, Eq)]
pub struct VpnConnection {
    /// NetworkManager connection UUID (stable identity).
    pub uuid: String,
    /// Human-visible name (`connection.id`).
    pub id: String,
    /// Plugin VPN vs native WireGuard.
    pub kind: VpnKind,
    /// Current coarse status.
    pub status: VpnStatus,
    /// `vpn.service-type` for plugin VPNs; `None` for WireGuard.
    pub service_type: Option<String>,
    /// Last successful activation, as Unix seconds; `0` if never activated.
    pub last_used: u64,
    /// Friendly protocol label, e.g. `OpenVPN`, `WireGuard`, `OpenConnect`.
    pub type_label: String,
    /// Gateway / remote endpoint, when known.
    pub gateway: Option<String>,
    /// Assigned IPv4 address (CIDR), when connected.
    pub ip4: Option<String>,
    /// Assigned IPv6 address (CIDR), when connected.
    pub ip6: Option<String>,
    /// DNS servers in use, when connected.
    pub dns_servers: Vec<String>,
    /// Bytes received on the VPN device, when connected (`0` otherwise).
    pub rx_bytes: u64,
    /// Bytes sent on the VPN device, when connected (`0` otherwise).
    pub tx_bytes: u64,
    /// Whether NetworkManager may auto-activate this profile.
    pub autoconnect: bool,
}

/// A new/edited plugin VPN (`connection.type = "vpn"`) with its general settings.
#[derive(Debug, Clone, Default, PartialEq, Eq)]
pub struct NewVpn {
    /// Connection name (`connection.id`).
    pub name: String,
    /// `vpn.service-type` (the plugin).
    pub service_type: String,
    /// Whether NetworkManager may auto-activate it.
    pub autoconnect: bool,
    /// `connection.autoconnect-priority`.
    pub autoconnect_priority: i32,
    /// `connection.metered`: 0 = automatic, 1 = metered, 2 = not metered.
    pub metered: i32,
    /// `connection.zone` (firewall zone); empty = unset.
    pub zone: String,
    /// `ipv4.never-default` + `ipv6.never-default` (split tunnel).
    pub never_default: bool,
    /// DNS search domains (space/comma separated), applied to ipv4 + ipv6.
    pub dns_search: String,
    /// DNS servers (space/comma separated IPv4/IPv6), applied to ipv4 + ipv6.
    pub dns: String,
    /// `vpn.data` key/value pairs (empty keys are dropped).
    pub data: Vec<(String, String)>,
}

impl NewVpn {
    /// Parse the search-domains field into a list.
    pub fn search_domains(&self) -> (r: Vec<String>)
        ensures
            string_views(r@) == split_fields_spec(self.dns_search@),
    {
        split_fields(self.dns_search.as_str())
    }

    /// The DNS-servers field split into its items (each an IPv4 or IPv6 address
    /// when well formed).
    pub fn dns_entries(&self) -> (r: Vec<String>)
        ensures
            string_views(r@) == split_fields_spec(self.dns@),
    {
        split_fields(self.dns.as_str())
    }
}

/// One peer of a WireGuard tunnel, as entered in the editor.
#[derive(Debug, Clone, Default, PartialEq, Eq)]
pub struct NewWgPeer {
    /// Peer public key (base64).
    pub public_key: String,
    /// Peer endpoint (`host:port`).
    pub endpoint: String,
    /// Peer allowed-IPs, comma/space/newline separated.
    pub allowed_ips: String,
    /// Pre-shared key (base64); empty = none.
    pub preshared_key: String,
    /// Persistent keepalive in seconds; empty/`0` = disabled.
    pub persistent_keepalive: String,
}

/// The allowed-IPs of a peer: its listed items, or `0.0.0.0/0` when there are none.
pub open spec fn allowed_ips_spec(field: Seq<char>) -> Seq<Seq<char>> {
    if split_fields_spec(field).len() == 0 {
        seq!["0.0.0.0/0"@]
    } else {
        split_fields_spec(field)
    }
}

/// A positive number of seconds/bytes parsed from a trimmed field.
pub open spec fn positive_u32_field(field: Seq<char>) -> Option<u32> {
    match parse_u32_spec(trim(field)) {
        Some(n) => if n > 0 {
            Some(n)
        } else {
            None
        },
        None => None,
    }
}

/// The trimmed field, or `None` when it is blank.
pub open spec fn nonblank_field(field: Seq<char>) -> Option<Seq<char>> {
    if trim(field).len() > 0 {
        Some(trim(field))
    } else {
        None
    }
}

/// The view of an optional string.
pub open spec fn opt_view(o: Option<String>) -> Option<Seq<char>> {
    match o {
        Some(s) => Some(s@),
        None => None,
    }
}

/// The trimmed, positive `u32` value of a text field, if it has one.
pub fn positive_u32_of(field: &String) -> (r: Option<u32>)
    ensures
        r == positive_u32_field(field@),
{
    let chars = chars_of(field.as_str());
    let t = trim_chars(&chars);
    match parse_u32(&t) {
        Some(n) => if n > 0 {
            Some(n)
        } else {
            None
        },
        None => None,
    }
}

impl NewWgPeer {
    /// Parse the allowed-IPs field into a list, defaulting to `0.0.0.0/0` when empty.
    pub fn allowed_ips(&self) -> (r: Vec<String>)
        ensures
            string_views(r@) == allowed_ips_spec(self.allowed_ips@),
    {
        let list = split_fields(self.allowed_ips.as_str());
        if list.len() == 0 {
            let all = string_from(&chars_of("0.0.0.0/0"));
            let mut r: Vec<String> = Vec::new();
            r.push(all);
            assert(string_views(r@) =~= seq!["0.0.0.0/0"@]);
            r
        } else {
            list
        }
    }

    /// Pre-shared key, or `None` when blank.
    pub fn psk(&self) -> (r: Option<String>)
        ensures
            opt_view(r) == nonblank_field(self.preshared_key@),
    {
        let key = trim_chars(&chars_of(self.preshared_key.as_str()));
        if key.len() > 0 {
            Some(string_from(&key))
        } else {
            None
        }
    }

    /// Persistent keepalive in seconds, or `None` when unset/zero/invalid.
    pub fn keepalive(&self) -> (r: Option<u32>)
        ensures
            r == positive_u32_field(self.persistent_keepalive@),
    {
        positive_u32_of(&self.persistent_keepalive)
    }
}

/// A new/edited WireGuard tunnel (interface + one or more peers).
#[derive(Debug, Clone, Default, PartialEq, Eq)]
pub struct NewWireGuard {
    /// Connection name.
    pub name: String,
    /// Autoconnect.
    pub autoconnect: bool,
    /// Interface private key (base64).
    pub private_key: String,
    /// Interface address with CIDR (e.g. `10.0.0.2/24`).
    pub address: String,
    /// DNS servers (space/comma separated) applied when connected.
    pub dns: String,
    /// Interface MTU; empty = unset.
    pub mtu: String,
    /// Peers (at least one required to build).
    pub peers: Vec<NewWgPeer>,
}

impl NewWireGuard {
    /// Parse the DNS-servers field into a list.
    pub fn dns_servers(&self) -> (r: Vec<String>)
        ensures
            string_views(r@) == split_fields_spec(self.dns@),
    {
        split_fields(self.dns.as_str())
    }

    /// Interface MTU, or `None` when unset/invalid.
    pub fn mtu_value(&self) -> (r: Option<u32>)
        ensures
            r == positive_u32_field(self.mtu@),
    {
        positive_u32_of(&self.mtu)
    }
}

/// Current editable fields of a saved WireGuard tunnel, for prefilling the editor.
#[derive(Debug, Clone, Default, PartialEq, Eq)]
pub struct WgEdit {
    /// Connection name.
    pub name: String,
    /// Autoconnect.
    pub autoconnect: bool,
    /// Interface private key (base64).
    pub private_key: String,
    /// Interface address with CIDR.
    pub address: String,
    /// DNS servers, space-separated.
    pub dns: String,
    /// Interface MTU, or empty.
    pub mtu: String,
    /// Peers.
    pub peers: Vec<NewWgPeer>,
}

/// Current editable fields of a saved plugin VPN, for prefilling the editor.
#[derive(Debug, Clone, Default, PartialEq, Eq)]
pub struct VpnEdit {
    /// Connection name.
    pub name: String,
    /// Autoconnect.
    pub autoconnect: bool,
    /// `connection.autoconnect-priority`.
    pub autoconnect_priority: i32,
    /// `connection.metered` (0 automatic / 1 metered / 2 not metered).
    pub metered: i32,
    /// `connection.zone` (firewall zone).
    pub zone: String,
    /// `ipv4.never-default` (split tunnel).
    pub never_default: bool,
    /// DNS search domains, space-separated.
    pub dns_search: String,
    /// DNS servers, space-separated.
    pub dns: String,
    /// `vpn.service-type`.
    pub service_type: String,
    /// `vpn.data` key/value pairs.
    pub data: Vec<(String, String)>,
}

/// What a click on a connection row should do, given its current status.
#[derive(Debug, Clone, Copy, PartialEq, Eq, Structural)]
pub enum ToggleAction {
    /// Bring the connection up.
    Activate,
    /// Take the connection down.
    Deactivate,
}

/// Decide the action for toggling a row: anything active (or transitioning) is taken
/// down; anything disconnected is brought up.
pub fn toggle_action(status: VpnStatus) -> (r: ToggleAction)
    ensures
        r == (if status_active(status) {
            ToggleAction::Deactivate
        } else {
            ToggleAction::Activate
        }),
{
    if status.is_active() {
        ToggleAction::Deactivate
    } else {
        ToggleAction::Activate
    }
}

/// Transitioning statuses, shown as "connecting" in the aggregate.
pub open spec fn status_transitioning(s: VpnStatus) -> bool {
    s == VpnStatus::Connecting || s == VpnStatus::Disconnecting || s == VpnStatus::Unknown
}

/// The aggregate status: Connected if any connection is connected, else Connecting if
/// any is transitioning, else Disconnected.
pub open spec fn overall_status_spec(statuses: Seq<VpnStatus>) -> VpnStatus {
    if exists|i: int| 0 <= i < statuses.len() && statuses[i] == VpnStatus::Connected {
        VpnStatus::Connected
    } else if exists|i: int| 0 <= i < statuses.len() && status_transitioning(statuses[i]) {
        VpnStatus::Connecting
    } else {
        VpnStatus::Disconnected
    }
}

/// The statuses of a list of connections.
pub open spec fn statuses_of(connections: Seq<VpnConnection>) -> Seq<VpnStatus> {
    connections.map_values(|c: VpnConnection| c.status)
}

/// Aggregate status across all connections, used to pick the panel icon.
///
/// Connected wins over connecting, which wins over disconnected; an empty list is
/// Disconnected.
pub fn overall_status(connections: &[VpnConnection]) -> (r: VpnStatus)
    ensures
        r == overall_status_spec(statuses_of(connections@)),
{
    let ghost st = statuses_of(connections@);
    let mut any_connected = false;
    let mut any_transitioning = false;
    let mut i: usize = 0;
    while i < connections.len()
        invariant
            i <= connections@.len(),
            st == statuses_of(connections@),
            any_connected == exists|j: int| 0 <= j < i && st[j] == VpnStatus::Connected,
            any_transitioning == exists|j: int| 0 <= j < i && status_transitioning(st[j]),
        decreases connections.len() - i,
    {
        let s = connections[i].status;
        assert(st[i as int] == s);
        match s {
            VpnStatus::Connected => {
                any_connected = true;
            },
            VpnStatus::Connecting | VpnStatus::Disconnecting | VpnStatus::Unknown => {
                any_transitioning = true;
            },
            VpnStatus::Disconnected => {},
        }
        i += 1;
    }
    if any_connected {
        VpnStatus::Connected
    } else if any_transitioning {
        VpnStatus::Connecting
    } else {
        VpnStatus::Disconnected
    }
}

/// Whether a config file has a `[Interface]` line (ignoring surrounding whitespace and
/// ASCII case), the mark of a WireGuard `.conf`.
pub open spec fn wireguard_conf_spec(content: Seq<char>) -> bool {
    exists|i: int|
        0 <= i < lines(content).len() && eq_ignore_ascii_case_spec(
            trim(#[trigger] lines(content)[i]),
            "[interface]"@,
        )
}

/// Heuristic used to route imports: a WireGuard `.conf` has an `[Interface]` section;
/// OpenVPN configs never do.
pub fn looks_like_wireguard_conf(content: &str) -> (r: bool)
    ensures
        r == wireguard_conf_spec(content@),
{
    let chars = chars_of(content);
    let all = lines_of(&chars);
    let marker = chars_of("[interface]");
    let mut i: usize = 0;
    while i < all.len()
        invariant
            i <= all@.len(),
            vec_views(all@) == lines(content@),
            marker@ == "[interface]"@,
            forall|j: int|
                0 <= j < i ==> !eq_ignore_ascii_case_spec(
                    trim(#[trigger] lines(content@)[j]),
                    "[interface]"@,
                ),
        decreases all.len() - i,
    {
        let t = trim_chars(&all[i]);
        assert(all@[i as int]@ == lines(content@)[i as int]);
        if eq_ignore_ascii_case(&t, &marker) {
            return true;
        }
        i += 1;
    }
    false
}

/// An elapsed duration as `1h 02m 03s` / `2m 03s` / `9s`.
pub open spec fn format_duration_spec(seconds: nat) -> Seq<char> {
    let hours = seconds / 3600;
    let minutes = (seconds % 3600) / 60;
    let secs = seconds % 60;
    if hours > 0 {
        decimal(hours) + seq!['h', ' '] + two_digits(minutes) + seq!['m', ' '] + two_digits(secs)
            + seq!['s']
    } else if minutes > 0 {
        decimal(minutes) + seq!['m', ' '] + two_digits(secs) + seq!['s']
    } else {
        decimal(secs) + seq!['s']
    }
}

/// Format an elapsed duration in seconds as a compact `1h 02m 03s` / `2m 03s` / `9s`.
pub fn format_duration(seconds: u64) -> (r: String)
    ensures
        r@ == format_duration_spec(seconds as nat),
{
    let hours = seconds / 3600;
    let minutes = (seconds % 3600) / 60;
    let secs = seconds % 60;
    let mut out: Vec<char> = Vec::new();
    if hours > 0 {
        push_decimal(&mut out, hours);
        out.push('h');
        out.push(' ');
        push_two_digits(&mut out, minutes);
        out.push('m');
        out.push(' ');
        push_two_digits(&mut out, secs);
        out.push('s');
    } else if minutes > 0 {
        push_decimal(&mut out, minutes);
        out.push('m');
        out.push(' ');
        push_two_digits(&mut out, secs);
        out.push('s');
    } else {
        push_decimal(&mut out, secs);
        out.push('s');
    }
    assert(out@ =~= format_duration_spec(seconds as nat));
    string_from(&out)
}

/// "Last used" relative to `now`, or `None` when never used (`0`).
pub open spec fn format_last_used_spec(last_used: nat, now: nat) -> Option<Seq<char>> {
    if last_used == 0 {
        None
    } else {
        let secs: nat = if now >= last_used {
            (now - last_used) as nat
        } else {
            0
        };
        Some(
            if secs < 60 {
                "just now"@
            } else if secs < 3600 {
                decimal(secs / 60) + " min ago"@
            } else if secs < 86400 {
                decimal(secs / 3600) + " h ago"@
            } else {
                decimal(secs / 86400) + " d ago"@
            },
        )
    }
}

/// Format a "last used" time relative to `now` (both Unix seconds). Returns `None`
/// when never used (`0`).
pub fn format_last_used(last_used: u64, now: u64) -> (r: Option<String>)
    ensures
        opt_view(r) == format_last_used_spec(last_used as nat, now as nat),
{
    if last_used == 0 {
        return None;
    }
    let secs = now.saturating_sub(last_used);
    let mut out: Vec<char> = Vec::new();
    if secs < 60 {
        push_str(&mut out, "just now");
    } else if secs < 3600 {
        push_decimal(&mut out, secs / 60);
        push_str(&mut out, " min ago");
    } else if secs < 86_400 {
        push_decimal(&mut out, secs / 3600);
        push_str(&mut out, " h ago");
    } else {
        push_decimal(&mut out, secs / 86_400);
        push_str(&mut out, " d ago");
    }
    assert(out@ =~= format_last_used_spec(last_used as nat, now as nat).unwrap());
    Some(string_from(&out))
}

/// `2` to the power `e`.
pub open spec fn pow2(e: nat) -> nat
    decreases e,
{
    if e == 0 {
        1
    } else {
        2 * pow2((e - 1) as nat)
    }
}

/// The number of binary digits of `n` (0 for 0).
pub open spec fn bit_length(n: nat) -> nat
    decreases n,
{
    if n == 0 {
        0
    } else {
        1 + bit_length(n / 2)
    }
}

/// `n / d` rounded to the nearest integer, ties to even.
pub open spec fn div_round_half_even(n: nat, d: nat) -> nat {
    let q = n / d;
    let r = n % d;
    if 2 * r > d || (2 * r == d && q % 2 == 1) {
        q + 1
    } else {
        q
    }
}

/// The integer value of `n as f64`: `n` rounded to 53 significant bits, ties to even.
pub open spec fn f64_value(n: nat) -> nat {
    if n < pow2(53) {
        n
    } else {
        let e = (bit_length(n) - 53) as nat;
        div_round_half_even(n, pow2(e)) * pow2(e)
    }
}

/// A count of tenths written with one decimal place, as `{:.1}` writes it.
pub open spec fn tenths_text(t: nat) -> Seq<char> {
    decimal(t / 10) + seq!['.'] + decimal(t % 10)
}

/// A byte count as `512 B` / `2.0 KB` / `5.0 MB` / `1.5 GB`: the value in the largest
/// unit that keeps it at least 1, with one decimal rounded half to even, as
/// `{:.1}` formats the `f64` quotient.
pub open spec fn format_bytes_spec(bytes: nat) -> Seq<char> {
    if bytes < 1024 {
        decimal(bytes) + " B"@
    } else if bytes < 1024 * 1024 {
        tenths_text(div_round_half_even(bytes * 10, 1024)) + " KB"@
    } else if bytes < 1024 * 1024 * 1024 {
        tenths_text(div_round_half_even(bytes * 10, 1024 * 1024)) + " MB"@
    } else {
        tenths_text(div_round_half_even(f64_value(bytes) * 10, 1024 * 1024 * 1024)) + " GB"@
    }
}

proof fn lemma_pow2_values()
    ensures
        pow2(11) == 2048,
        pow2(53) == 0x20_0000_0000_0000,
        pow2(64) == 0x1_0000_0000_0000_0000,
{
    reveal_with_fuel(pow2, 65);
}

proof fn lemma_pow2_positive(e: nat)
    ensures
        pow2(e) >= 1,
    decreases e,
{
    if e > 0 {
        lemma_pow2_positive((e - 1) as nat);
    }
}

proof fn lemma_bit_length_lower(n: nat, k: nat)
    requires
        n >= pow2(k),
    ensures
        bit_length(n) >= k + 1,
    decreases k,
{
    lemma_pow2_positive(k);
    if k > 0 {
        lemma_bit_length_lower(n / 2, (k - 1) as nat);
    }
}

proof fn lemma_bit_length_upper(n: nat, k: nat)
    requires
        n < pow2(k),
    ensures
        bit_length(n) <= k,
    decreases k,
{
    if k > 0 && n > 0 {
        lemma_bit_length_upper(n / 2, (k - 1) as nat);
    }
}

proof fn lemma_pow2_mono(a: nat, b: nat)
    requires
        a <= b,
    ensures
        pow2(a) <= pow2(b),
    decreases b,
{
    lemma_pow2_positive(b);
    if a < b {
        lemma_pow2_mono(a, (b - 1) as nat);
    }
}

/// `n / d` rounded half to even, for `n` and `d` that fit the computation.
fn div_round_half_even_exec(n: u128, d: u128) -> (r: u128)
    requires
        d > 0,
        d <= 0x1_0000_0000_0000_0000,
        n < 0x1_0000_0000_0000_0000_0000,
    ensures
        r == div_round_half_even(n as nat, d as nat),
{
    let q = n / d;
    let r = n % d;
    if 2 * r > d || (2 * r == d && q % 2 == 1) {
        q + 1
    } else {
        q
    }
}

/// The integer value of `n as f64`.
fn f64_value_exec(n: u64) -> (r: u128)
    ensures
        r == f64_value(n as nat),
        r <= 2 * (n as nat),
{
    proof {
        lemma_pow2_values();
    }
    if n < 0x20_0000_0000_0000 {
        return n as u128;
    }
    let mut len: u64 = 0;
    let mut m: u64 = n;
    while m > 0
        invariant
            bit_length(n as nat) == len + bit_length(m as nat),
            len + m <= n,
        decreases m,
    {
        m = m / 2;
        len += 1;
    }
    proof {
        lemma_bit_length_lower(n as nat, 53);
        lemma_bit_length_upper(n as nat, 64);
    }
    let e = len - 53;
    let mut d: u128 = 1;
    let mut k: u64 = 0;
    while k < e
        invariant
            k <= e <= 11,
            d == pow2(k as nat),
        decreases e - k,
    {
        proof {
            lemma_pow2_mono(k as nat, 11);
            lemma_pow2_values();
        }
        d = d * 2;
        k += 1;
    }
    proof {
        lemma_pow2_values();
        lemma_pow2_mono(e as nat, 11);
        lemma_pow2_positive(e as nat);
        lemma_pow2_mono(e as nat, 53);
        vstd::arithmetic::div_mod::lemma_fundamental_div_mod(n as int, d as int);
    }
    let q = div_round_half_even_exec(n as u128, d);
    proof {
        let qq = (n as nat) / (d as nat);
        assert(q <= qq + 1);
        assert(qq * (d as nat) <= n) by (nonlinear_arith)
            requires
                qq == (n as nat) / (d as nat),
                d > 0,
        ;
        assert(q * d <= qq * d + d) by (nonlinear_arith)
            requires
                q <= qq + 1,
                d > 0,
        ;
    }
    q * d
}

/// Appends `t` tenths as `{int}.{digit}`.
fn push_tenths(out: &mut Vec<char>, t: u128)
    requires
        t < 0x1_0000_0000_0000_0000,
    ensures
        final(out)@ == old(out)@ + tenths_text(t as nat),
{
    push_decimal(out, (t / 10) as u64);
    out.push('.');
    let ghost mid = out@;
    push_decimal(out, (t % 10) as u64);
    assert(final(out)@ =~= old(out)@ + tenths_text(t as nat));
}

/// Format a byte count as a compact human-readable string (`B`/`KB`/`MB`/`GB`).
pub fn format_bytes(bytes: u64) -> (r: String)
    ensures
        r@ == format_bytes_spec(bytes as nat),
{
    let mut out: Vec<char> = Vec::new();
    if bytes < 1024 {
        push_decimal(&mut out, bytes);
        push_str(&mut out, " B");
    } else if bytes < 1024 * 1024 {
        let t = div_round_half_even_exec(bytes as u128 * 10, 1024);
        push_tenths(&mut out, t);
        push_str(&mut out, " KB");
    } else if bytes < 1024 * 1024 * 1024 {
        let t = div_round_half_even_exec(bytes as u128 * 10, 1024 * 1024);
        push_tenths(&mut out, t);
        push_str(&mut out, " MB");
    } else {
        let v = f64_value_exec(bytes);
        let t = div_round_half_even_exec(v * 10, 1024 * 1024 * 1024);
        push_tenths(&mut out, t);
        push_str(&mut out, " GB");
    }
    assert(out@ =~= format_bytes_spec(bytes as nat));
    string_from(&out)
}

/// What `str::to_lowercase` returns for `s` (Unicode lower-casing).
pub uninterp spec fn lowercase(s: Seq<char>) -> Seq<char>;

/// `str::to_lowercase`, as characters: the Unicode lower-case mapping of `s`, a
/// function of `s` alone. The mapping itself (Unicode's case tables) is not stated.
#[verifier::external_body]
pub(crate) fn lowercase_chars(s: &str) -> (r: Vec<char>)
    ensures
        r@ == lowercase(s@),
{
    s.to_lowercase().chars().collect()
}

/// Code-point lexicographic order (`String`'s `Ord`, which compares UTF-8 bytes and
/// so orders by code points).
pub open spec fn lex_lt(a: Seq<char>, b: Seq<char>) -> bool
    decreases a.len(),
{
    if a.len() == 0 {
        b.len() > 0
    } else if b.len() == 0 {
        false
    } else if a[0] < b[0] {
        true
    } else if a[0] == b[0] {
        lex_lt(a.drop_first(), b.drop_first())
    } else {
        false
    }
}

/// The display-order key of a connection: active first, then most recently used,
/// then case-insensitive name.
pub open spec fn conn_key(c: VpnConnection) -> (bool, nat, Seq<char>) {
    (status_active(c.status), c.last_used as nat, lowercase(c.id@))
}

/// Whether key `a` sorts strictly before key `b`.
pub open spec fn key_lt(a: (bool, nat, Seq<char>), b: (bool, nat, Seq<char>)) -> bool {
    ||| a.0 && !b.0
    ||| a.0 == b.0 && a.1 > b.1
    ||| a.0 == b.0 && a.1 == b.1 && lex_lt(a.2, b.2)
}

/// The display key as a function.
pub open spec fn conn_key_fn() -> spec_fn(VpnConnection) -> (bool, nat, Seq<char>) {
    |c: VpnConnection| conn_key(c)
}

/// `s` is ordered by `key`: no item sorts strictly before one listed earlier.
pub open spec fn sorted_by<T>(s: Seq<T>, key: spec_fn(T) -> (bool, nat, Seq<char>)) -> bool {
    forall|i: int, j: int|
        0 <= i < j < s.len() ==> !key_lt(#[trigger] key(s[j]), #[trigger] key(s[i]))
}

/// `after` lists the items of `before`, `after[t]` being `before[p[t]]` for a
/// one-to-one `p`, with items of equal keys kept in their original relative order.
pub open spec fn stable_permutation_by<T>(
    before: Seq<T>,
    after: Seq<T>,
    p: Seq<int>,
    key: spec_fn(T) -> (bool, nat, Seq<char>),
) -> bool {
    &&& after.len() == before.len()
    &&& p.len() == before.len()
    &&& forall|t: int| 0 <= t < p.len() ==> 0 <= #[trigger] p[t] < before.len()
    &&& forall|t: int| 0 <= t < p.len() ==> after[t] == before[#[trigger] p[t]]
    &&& forall|s: int, t: int| 0 <= s < t < p.len() ==> #[trigger] p[s] != #[trigger] p[t]
    &&& forall|s: int, t: int|
        0 <= s < t < p.len() && key(#[trigger] after[s]) == key(#[trigger] after[t]) ==> p[s]
            < p[t]
}

/// Connections in display order.
pub open spec fn display_sorted(s: Seq<VpnConnection>) -> bool {
    sorted_by(s, conn_key_fn())
}

/// `after` is `before` reordered one-to-one, connections with equal display keys in
/// their original relative order.
pub open spec fn stable_permutation(
    before: Seq<VpnConnection>,
    after: Seq<VpnConnection>,
    p: Seq<int>,
) -> bool {
    stable_permutation_by(before, after, p, conn_key_fn())
}

proof fn lemma_lex_irreflexive(a: Seq<char>)
    ensures
        !lex_lt(a, a),
    decreases a.len(),
{
    if a.len() > 0 {
        lemma_lex_irreflexive(a.drop_first());
    }
}

proof fn lemma_lex_asym(a: Seq<char>, b: Seq<char>)
    ensures
        !(lex_lt(a, b) && lex_lt(b, a)),
    decreases a.len(),
{
    if a.len() > 0 && b.len() > 0 && a[0] == b[0] {
        lemma_lex_asym(a.drop_first(), b.drop_first());
    }
}

proof fn lemma_lex_trans(a: Seq<char>, b: Seq<char>, c: Seq<char>)
    requires
        lex_lt(a, b),
        lex_lt(b, c),
    ensures
        lex_lt(a, c),
    decreases a.len(),
{
    if a.len() > 0 && b.len() > 0 && c.len() > 0 && a[0] == b[0] && b[0] == c[0] {
        lemma_lex_trans(a.drop_first(), b.drop_first(), c.drop_first());
    }
}

proof fn lemma_lex_total(a: Seq<char>, b: Seq<char>)
    requires
        !lex_lt(a, b),
        !lex_lt(b, a),
    ensures
        a == b,
    decreases a.len(),
{
    if a.len() > 0 && b.len() > 0 {
        assert(a[0] == b[0]);
        lemma_lex_total(a.drop_first(), b.drop_first());
        assert(a =~= seq![a[0]] + a.drop_first());
        assert(b =~= seq![b[0]] + b.drop_first());
    } else {
        assert(a =~= b);
    }
}

/// The display order is a total preorder: `<=` (not strictly after) is transitive.
proof fn lemma_key_le_trans(a: (bool, nat, Seq<char>), b: (bool, nat, Seq<char>), c: (
    bool,
    nat,
    Seq<char>,
))
    requires
        !key_lt(b, a),
        !key_lt(c, b),
    ensures
        !key_lt(c, a),
{
    if key_lt(c, a) {
        if a.0 == b.0 && b.0 == c.0 && a.1 == b.1 && b.1 == c.1 {
            if lex_lt(c.2, a.2) {
                if lex_lt(b.2, a.2) {
                } else if lex_lt(c.2, b.2) {
                } else if lex_lt(a.2, b.2) {
                    lemma_lex_trans(c.2, a.2, b.2);
                } else {
                    lemma_lex_total(a.2, b.2);
                }
            }
        }
    }
}

proof fn lemma_key_asym(a: (bool, nat, Seq<char>), b: (bool, nat, Seq<char>))
    ensures
        !(key_lt(a, b) && key_lt(b, a)),
{
    lemma_lex_asym(a.2, b.2);
}

pub(crate) proof fn lemma_key_total(a: (bool, nat, Seq<char>), b: (bool, nat, Seq<char>))
    requires
        !key_lt(a, b),
        !key_lt(b, a),
    ensures
        a == b,
{
    lemma_lex_total(a.2, b.2);
}

/// `lex_lt` on character vectors.
fn lex_less(a: &Vec<char>, b: &Vec<char>) -> (r: bool)
    ensures
        r == lex_lt(a@, b@),
{
    let mut i: usize = 0;
    assert(a@.skip(0) =~= a@);
    assert(b@.skip(0) =~= b@);
    while i < a.len() && i < b.len() && a[i] == b[i]
        invariant
            i <= a@.len(),
            i <= b@.len(),
            lex_lt(a@, b@) == lex_lt(a@.skip(i as int), b@.skip(i as int)),
        decreases a.len() - i,
    {
        assert(a@.skip(i as int).drop_first() =~= a@.skip(i + 1));
        assert(b@.skip(i as int).drop_first() =~= b@.skip(i + 1));
        i += 1;
    }
    if i == a.len() {
        i < b.len()
    } else if i == b.len() {
        false
    } else {
        a[i] < b[i]
    }
}

/// The view of an executable sort key.
pub open spec fn key_view(k: (bool, u64, Vec<char>)) -> (bool, nat, Seq<char>) {
    (k.0, k.1 as nat, k.2@)
}

fn key_less(a: &(bool, u64, Vec<char>), b: &(bool, u64, Vec<char>)) -> (r: bool)
    ensures
        r == key_lt(key_view(*a), key_view(*b)),
{
    if a.0 && !b.0 {
        true
    } else if a.0 != b.0 {
        false
    } else if a.1 != b.1 {
        a.1 > b.1
    } else {
        lex_less(&a.2, &b.2)
    }
}

/// Stable insertion sort of `items` by precomputed keys (`keys[s]` the key of
/// `items[s]`).
pub(crate) fn stable_sort_by_keys<T>(
    connections: &mut Vec<T>,
    keys: Vec<(bool, u64, Vec<char>)>,
    Ghost(kf): Ghost<spec_fn(T) -> (bool, nat, Seq<char>)>,
)
    requires
        keys@.len() == old(connections)@.len(),
        forall|s: int|
            0 <= s < keys@.len() ==> key_view(#[trigger] keys@[s]) == kf(old(connections)@[s]),
    ensures
        sorted_by(final(connections)@, kf),
        exists|p: Seq<int>| stable_permutation_by(old(connections)@, final(connections)@, p, kf),
{
    let ghost orig = connections@;
    let n = connections.len();
    let mut keys = keys;
    let ghost mut perm: Seq<int> = Seq::new(n as nat, |s: int| s);
    let mut i: usize = 0;
    while i < n
        invariant
            n == connections@.len(),
            n == keys@.len(),
            i <= n,
            perm.len() == n,
            forall|s: int| 0 <= s < n ==> key_view(#[trigger] keys@[s]) == kf(connections@[s]),
            forall|s: int| 0 <= s < n ==> 0 <= #[trigger] perm[s] < n,
            forall|s: int| 0 <= s < n ==> connections@[s] == orig[#[trigger] perm[s]],
            forall|s: int, u: int| 0 <= s < u < n ==> #[trigger] perm[s] != #[trigger] perm[u],
            forall|s: int| i <= s < n ==> #[trigger] perm[s] == s,
            forall|s: int| 0 <= s < i ==> #[trigger] perm[s] < i,
            forall|s: int, u: int|
                0 <= s < u < i ==> !key_lt(
                    #[trigger] kf(connections@[u]),
                    #[trigger] kf(connections@[s]),
                ),
            forall|s: int, u: int|
                0 <= s < u < i && kf(#[trigger] connections@[s]) == kf(
                    #[trigger] connections@[u],
                ) ==> perm[s] < perm[u],
        decreases n - i,
    {
        let mut j: usize = i;
        while j > 0 && key_less(&keys[i], &keys[j - 1])
            invariant
                0 <= j <= i < n,
                n == keys@.len(),
                forall|s: int|
                    j <= s < i ==> key_lt(key_view(keys@[i as int]), key_view(#[trigger] keys@[s])),
            decreases j,
        {
            j -= 1;
        }
        let ghost old_c = connections@;
        let ghost old_k = keys@;
        let ghost old_p = perm;
        let ghost kx = kf(old_c[i as int]);
        let x = connections.remove(i);
        connections.insert(j, x);
        let kxv = keys.remove(i);
        keys.insert(j, kxv);
        proof {
            let f = |s: int|
                if s < j {
                    s
                } else if s == j {
                    i as int
                } else if s <= i {
                    s - 1
                } else {
                    s
                };
            perm = Seq::new(n as nat, |s: int| old_p[f(s)]);
            assert forall|s: int| 0 <= s < n implies connections@[s] == old_c[f(s)]
                && keys@[s] == old_k[f(s)] by {}
            assert forall|s: int, u: int|
                0 <= s < u < n implies #[trigger] perm[s] != #[trigger] perm[u] by {
                assert(f(s) != f(u));
            }
            assert forall|s: int, u: int|
                0 <= s < u <= i implies !key_lt(
                #[trigger] kf(connections@[u]),
                #[trigger] kf(connections@[s]),
            ) by {
                if s == j {
                    assert(key_view(old_k[u - 1]) == kf(old_c[u - 1]));
                    assert(key_view(old_k[i as int]) == kx);
                    assert(key_lt(key_view(old_k[i as int]), key_view(old_k[u - 1])));
                    assert(key_lt(kx, kf(connections@[u])));
                    lemma_key_asym(kx, kf(connections@[u]));
                } else if u == j {
                    if j > 0 {
                        assert(!key_lt(kx, kf(old_c[j - 1])));
                        if s < j - 1 {
                            lemma_key_le_trans(
                                kf(old_c[s]),
                                kf(old_c[j - 1]),
                                kx,
                            );
                        }
                    }
                } else {
                    assert(f(s) < f(u));
                }
            }
            assert forall|s: int, u: int|
                0 <= s < u <= i && kf(#[trigger] connections@[s]) == kf(
                    #[trigger] connections@[u],
                ) implies perm[s] < perm[u] by {
                if s == j {
                    lemma_lex_irreflexive(kx.2);
                    assert(key_view(old_k[u - 1]) == kf(old_c[u - 1]));
                    assert(key_view(old_k[i as int]) == kx);
                    assert(key_lt(key_view(old_k[i as int]), key_view(old_k[u - 1])));
                    assert(key_lt(kx, kf(connections@[u])));
                } else if u == j {
                    assert(old_p[f(s)] < i);
                } else {
                    assert(f(s) < f(u));
                }
            }
        }
        i += 1;
    }
    assert(stable_permutation_by(orig, connections@, perm, kf));
}

/// Orders connections for display: active/transitioning first, then most-recently
/// used, then case-insensitive by name. Stable so equal keys keep their order.
pub fn sort_connections(connections: &mut Vec<VpnConnection>)
    ensures
        display_sorted(final(connections)@),
        exists|p: Seq<int>| stable_permutation(old(connections)@, final(connections)@, p),
{
    let n = connections.len();
    let mut keys: Vec<(bool, u64, Vec<char>)> = Vec::new();
    let mut t: usize = 0;
    while t < n
        invariant
            n == connections@.len(),
            connections@ == old(connections)@,
            t <= n,
            keys@.len() == t,
            forall|s: int| 0 <= s < t ==> key_view(#[trigger] keys@[s]) == conn_key(connections@[s]),
        decreases n - t,
    {
        let c = &connections[t];
        let k = (c.status.is_active(), c.last_used, lowercase_chars(c.id.as_str()));
        keys.push(k);
        t += 1;
    }
    let ghost orig = connections@;
    stable_sort_by_keys(connections, keys, Ghost(conn_key_fn()));
    proof {
        let p = choose|p: Seq<int>| stable_permutation_by(orig, connections@, p, conn_key_fn());
        assert(stable_permutation(orig, connections@, p));
    }
}

} // verus!
