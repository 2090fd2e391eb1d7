//! The applet's state and its decisions: how each user action or NetworkManager
//! event changes the state, and which outside work (a D-Bus call, a notification,
//! a file picker) it asks for. The caller performs the [`Effect`] and hands back the
//! resulting event.
use vstd::prelude::*;

use crate::enums::{plugin_short_name, plugin_short_name_of};
use crate::model::{
    opt_view, overall_status, overall_status_spec, status_active, statuses_of, NewVpn,
    NewWgPeer, NewWireGuard, VpnConnection, VpnEdit, VpnKind, VpnStatus, WgEdit,
};
use crate::nm::{clone_opt_string, clone_strings};
use crate::text::{
    chars_eq, chars_eq_str, chars_of, parse_i32, parse_i32_spec, string_from, string_views,
    trim, trim_chars,
};
use crate::editor::{
    empty_string, vpn_editor, vpn_editor_spec, vpn_save_spec, wireguard_editor,
    wireguard_editor_spec, wireguard_save_spec, Editor, EditorText, PeerText,
};
use crate::vpn_auth::{pair_views, pairs_map, uses_auth_dialog, StringMap, VpnPlugin, OPENCONNECT_SERVICE};

verus! {

/// What a desktop notification reports.
#[derive(Debug, Clone, Copy, PartialEq, Eq, Structural)]
pub enum Notice {
    /// A connection came up.
    Connected,
    /// A connection went down.
    Disconnected,
    /// A connection failed to activate.
    Failed,
}

/// The status a connection had in a list: that of the last entry with its UUID.
pub open spec fn previous_status(old: Seq<VpnConnection>, uuid: Seq<char>) -> Option<VpnStatus>
    decreases old.len(),
{
    if old.len() == 0 {
        None
    } else if old.last().uuid@ == uuid {
        Some(old.last().status)
    } else {
        previous_status(old.drop_last(), uuid)
    }
}

/// The notice for one connection of a new list: it came up (now connected, was
/// known and not connected), or went down (now disconnected, was connected or
/// transitioning, but not in an unknown state).
pub open spec fn transition_of(old: Seq<VpnConnection>, c: VpnConnection) -> Option<Notice> {
    match previous_status(old, c.uuid@) {
        None => None,
        Some(was) => if c.status == VpnStatus::Connected && was != VpnStatus::Connected {
            Some(Notice::Connected)
        } else if c.status == VpnStatus::Disconnected && (was == VpnStatus::Connected || was
            == VpnStatus::Connecting || was == VpnStatus::Disconnecting) {
            Some(Notice::Disconnected)
        } else {
            None
        },
    }
}

/// The notices for a refresh from `old` to `new`, in the order of `new`, each with the
/// connection's name.
pub open spec fn transitions_spec(old: Seq<VpnConnection>, new: Seq<VpnConnection>) -> Seq<
    (Notice, Seq<char>),
>
    decreases new.len(),
{
    if new.len() == 0 {
        Seq::empty()
    } else {
        let prev = transitions_spec(old, new.drop_last());
        match transition_of(old, new.last()) {
            Some(n) => prev.push((n, new.last().id@)),
            None => prev,
        }
    }
}

/// The views of a list of notices.
pub open spec fn notice_views(v: Seq<(Notice, String)>) -> Seq<(Notice, Seq<char>)> {
    v.map_values(|p: (Notice, String)| (p.0, p.1@))
}

fn previous_status_exec(old: &Vec<VpnConnection>, uuid: &String) -> (r: Option<VpnStatus>)
    ensures
        r == previous_status(old@, uuid@),
{
    let u = chars_of(uuid.as_str());
    let mut i: usize = old.len();
    assert(old@.take(old@.len() as int) =~= old@);
    while i > 0
        invariant
            i <= old@.len(),
            u@ == uuid@,
            previous_status(old@, uuid@) == previous_status(old@.take(i as int), uuid@),
        decreases i,
    {
        let c = chars_of(old[i - 1].uuid.as_str());
        assert(old@.take(i as int).last() == old@[i - 1]);
        if chars_eq(&c, &u) {
            return Some(old[i - 1].status);
        }
        assert(old@.take(i as int).drop_last() =~= old@.take(i - 1));
        i -= 1;
    }
    None
}

/// Compute the notices for status transitions between the old and new connection
/// lists (connected / disconnected).
pub fn status_transitions(old: &Vec<VpnConnection>, new: &Vec<VpnConnection>) -> (r: Vec<
    (Notice, String),
>)
    ensures
        notice_views(r@) == transitions_spec(old@, new@),
{
    let mut events: Vec<(Notice, String)> = Vec::new();
    let mut i: usize = 0;
    while i < new.len()
        invariant
            i <= new@.len(),
            notice_views(events@) == transitions_spec(old@, new@.take(i as int)),
        decreases new.len() - i,
    {
        let c = &new[i];
        assert(new@.take(i + 1).drop_last() =~= new@.take(i as int));
        assert(new@.take(i + 1).last() == new@[i as int]);
        let ghost before = notice_views(events@);
        match previous_status_exec(old, &c.uuid) {
            Some(was) => {
                if c.status == VpnStatus::Connected && was != VpnStatus::Connected {
                    events.push((Notice::Connected, c.id.clone()));
                    assert(notice_views(events@) =~= before.push((Notice::Connected, c.id@)));
                } else if c.status == VpnStatus::Disconnected && (was == VpnStatus::Connected || was
                    == VpnStatus::Connecting || was == VpnStatus::Disconnecting) {
                    events.push((Notice::Disconnected, c.id.clone()));
                    assert(notice_views(events@) =~= before.push((Notice::Disconnected, c.id@)));
                }
            },
            None => {},
        }
        i += 1;
    }
    assert(new@.take(new@.len() as int) =~= new@);
    events
}

/// Why a VPN activation failed, for the reasons worth telling the user.
#[derive(Debug, Clone, Copy, PartialEq, Eq, Structural)]
pub enum FailureReason {
    /// IP configuration failed.
    IpConfig,
    /// The connection or the service timed out.
    Timeout,
    /// The VPN service failed.
    ServiceFailed,
    /// No secrets were provided.
    NoSecrets,
    /// Login failed.
    LoginFailed,
}

/// The failure reason of an `NM_VPN_CONNECTION_STATE_REASON_*` code, or `None` for
/// non-actionable reasons (unknown / user-initiated).
pub open spec fn failure_reason_spec(code: u32) -> Option<FailureReason> {
    if code == 5 {
        Some(FailureReason::IpConfig)
    } else if code == 6 || code == 7 {
        Some(FailureReason::Timeout)
    } else if code == 8 {
        Some(FailureReason::ServiceFailed)
    } else if code == 9 {
        Some(FailureReason::NoSecrets)
    } else if code == 10 {
        Some(FailureReason::LoginFailed)
    } else {
        None
    }
}

/// The failure reason of a VPN failure code, or `None` for non-actionable reasons.
pub fn failure_reason(code: u32) -> (r: Option<FailureReason>)
    ensures
        r == failure_reason_spec(code),
{
    match code {
        5 => Some(FailureReason::IpConfig),
        6 | 7 => Some(FailureReason::Timeout),
        8 => Some(FailureReason::ServiceFailed),
        9 => Some(FailureReason::NoSecrets),
        10 => Some(FailureReason::LoginFailed),
        _ => None,
    }
}

/// Panel icon name reflecting the aggregate connection state.
pub fn panel_icon(connections: &[VpnConnection]) -> (r: &'static str)
    ensures
        r@ == (match overall_status_spec(statuses_of(connections@)) {
            VpnStatus::Connected => "network-vpn-symbolic"@,
            VpnStatus::Disconnected => "network-vpn-disconnected-symbolic"@,
            _ => "network-vpn-acquiring-symbolic"@,
        }),
{
    match overall_status(connections) {
        VpnStatus::Connected => "network-vpn-symbolic",
        VpnStatus::Disconnected => "network-vpn-disconnected-symbolic",
        _ => "network-vpn-acquiring-symbolic",
    }
}

/// One secret field to prompt for (e.g. `password`, `otp`).
pub struct SecretField {
    /// NetworkManager secret key.
    pub key: String,
    /// The value entered so far.
    pub value: String,
    /// Whether the value is masked in the input.
    pub hidden: bool,
}

/// An in-progress secret prompt: the connection's name and one field per secret.
pub struct SecretPrompt {
    /// Display name of the connection.
    pub connection_id: String,
    /// One field per requested secret.
    pub fields: Vec<SecretField>,
}

/// How a secret request from NetworkManager is answered.
pub enum SecretRoute {
    /// Decline, so another agent can answer (not a VPN, or no interaction allowed).
    Decline,
    /// Run the plugin's auth-dialog helper.
    AuthDialog,
    /// Show a prompt with these fields.
    Prompt(SecretPrompt),
}

/// The secret keys to prompt for: the request's hints, or `password` when it has none.
pub open spec fn prompt_keys(hints: Seq<Seq<char>>) -> Seq<Seq<char>> {
    if hints.len() == 0 {
        seq!["password"@]
    } else {
        hints
    }
}

/// An empty, masked field for `key`.
pub open spec fn fresh_field(f: SecretField, key: Seq<char>) -> bool {
    f.key@ == key && f.value@.len() == 0 && f.hidden
}

/// The prompt fields are the keys, in order, each empty and masked.
pub open spec fn fresh_fields(fields: Seq<SecretField>, keys: Seq<Seq<char>>) -> bool {
    &&& fields.len() == keys.len()
    &&& forall|i: int| 0 <= i < fields.len() ==> fresh_field(#[trigger] fields[i], keys[i])
}

/// Route a secret request: non-VPN and non-interactive requests are declined; the
/// auth-dialog service types go to their helper; any other VPN gets a prompt with one
/// empty, masked field per hinted secret (or a `password` field).
pub fn route_secret_request(
    is_vpn: bool,
    service_type: &str,
    interactive: bool,
    connection_id: String,
    hints: &Vec<String>,
) -> (r: SecretRoute)
    ensures
        !is_vpn || !interactive ==> r is Decline,
        is_vpn && interactive && service_type@ == OPENCONNECT_SERVICE@ ==> r is AuthDialog,
        is_vpn && interactive && service_type@ != OPENCONNECT_SERVICE@ ==> (match r {
            SecretRoute::Prompt(p) => p.connection_id == connection_id && fresh_fields(
                p.fields@,
                prompt_keys(string_views(hints@)),
            ),
            _ => false,
        }),
{
    if !is_vpn || !interactive {
        return SecretRoute::Decline;
    }
    if uses_auth_dialog(service_type) {
        return SecretRoute::AuthDialog;
    }
    let keys = if hints.len() == 0 {
        let mut k: Vec<String> = Vec::new();
        k.push(string_from(&chars_of("password")));
        assert(string_views(k@) =~= seq!["password"@]);
        k
    } else {
        clone_strings(hints)
    };
    let mut fields: Vec<SecretField> = Vec::new();
    let mut i: usize = 0;
    while i < keys.len()
        invariant
            i <= keys@.len(),
            fields@.len() == i,
            string_views(keys@) == prompt_keys(string_views(hints@)),
            forall|j: int| 0 <= j < i ==> fresh_field(#[trigger] fields@[j], keys@[j]@),
        decreases keys.len() - i,
    {
        let empty: Vec<char> = Vec::new();
        let f = SecretField { key: keys[i].clone(), value: string_from(&empty), hidden: true };
        assert(fresh_field(f, keys@[i as int]@));
        fields.push(f);
        i += 1;
    }
    assert forall|j: int| 0 <= j < fields@.len() implies fresh_field(
        #[trigger] fields@[j],
        prompt_keys(string_views(hints@))[j],
    ) by {
        assert(string_views(keys@)[j] == keys@[j]@);
    }
    SecretRoute::Prompt(SecretPrompt { connection_id, fields })
}

/// The outside work a decision asks for; the caller performs it and reports back.
pub enum Effect {
    /// Nothing to do.
    Idle,
    /// Reload the connection list.
    Load,
    /// Send these desktop notifications (what happened, to which connection).
    Notify(Vec<(Notice, String)>),
    /// Activate the connection with this UUID.
    Activate(String),
    /// Deactivate the connection with this UUID.
    Deactivate(String),
    /// Set autoconnect of the connection with this UUID.
    SetAutoconnect(String, bool),
    /// Delete the connection with this UUID.
    Forget(String),
    /// Duplicate the connection with this UUID.
    Duplicate(String),
    /// Open the popup (if it is not open).
    OpenPopup,
    /// Answer the pending secret request with these secrets.
    SendSecrets(StringMap),
    /// Cancel the pending secret request.
    CancelSecrets,
    /// Open the file picker for an import.
    PickImportFile,
    /// Read a plugin VPN's editable fields.
    ReadVpn(String),
    /// Read a WireGuard tunnel's editable fields.
    ReadWireGuard(String),
    /// Create a plugin VPN.
    CreateVpn(NewVpn),
    /// Update the plugin VPN with this UUID.
    UpdateVpn(String, NewVpn),
    /// Create a WireGuard tunnel.
    CreateWireGuard(NewWireGuard),
    /// Update the WireGuard tunnel with this UUID.
    UpdateWireGuard(String, NewWireGuard),
}

/// What the popup's body shows.
#[derive(Debug, Clone, Copy, PartialEq, Eq, Structural)]
pub enum PopupBody {
    /// The connection editor (in place of everything else).
    Editor,
    /// The last error.
    Error,
    /// The note that there are no VPN connections.
    Empty,
    /// The list of connections.
    List,
}

/// The applet's state, apart from what only the UI toolkit holds (the popup window,
/// timers, the secret responder).
pub struct AppletState {
    /// VPN + WireGuard connections, ordered for display.
    pub connections: Vec<VpnConnection>,
    /// UUIDs with an operation in flight.
    pub pending: Vec<String>,
    /// UUID of the row whose detail panel is expanded, if any.
    pub expanded: Option<String>,
    /// UUID awaiting a "forget" confirmation, if any.
    pub confirm_forget: Option<String>,
    /// Active secret prompt, if any.
    pub secret_prompt: Option<SecretPrompt>,
    /// The connection editor, when open.
    pub editor: Option<Editor>,
    /// Set after the first load, so the initial state is not notified.
    pub notifications_ready: bool,
    /// Last error, if the most recent load or operation failed.
    pub error: Option<String>,
}

/// The UUIDs a list of strings holds.
pub open spec fn string_set(v: Seq<String>) -> Set<Seq<char>> {
    Set::new(|s: Seq<char>| exists|i: int| 0 <= i < v.len() && #[trigger] v[i]@ == s)
}

/// The index of the first connection with this UUID, or `-1`.
pub open spec fn uuid_index(s: Seq<VpnConnection>, uuid: Seq<char>) -> int
    decreases s.len(),
{
    if s.len() == 0 {
        -1
    } else if s[0].uuid@ == uuid {
        0
    } else if uuid_index(s.drop_first(), uuid) >= 0 {
        1 + uuid_index(s.drop_first(), uuid)
    } else {
        -1
    }
}

proof fn lemma_uuid_index(s: Seq<VpnConnection>, uuid: Seq<char>)
    ensures
        -1 <= uuid_index(s, uuid) < s.len(),
        uuid_index(s, uuid) >= 0 ==> s[uuid_index(s, uuid)].uuid@ == uuid,
    decreases s.len(),
{
    if s.len() > 0 && s[0].uuid@ != uuid {
        lemma_uuid_index(s.drop_first(), uuid);
    }
}

/// The list with the first connection of this UUID (if any) given `status`.
pub open spec fn with_status(s: Seq<VpnConnection>, uuid: Seq<char>, status: VpnStatus) -> Seq<
    VpnConnection,
> {
    let i = uuid_index(s, uuid);
    if i >= 0 {
        s.update(i, VpnConnection { status: status, ..s[i] })
    } else {
        s
    }
}

/// The list with the first connection of this UUID (if any) given `autoconnect`.
pub open spec fn with_autoconnect(s: Seq<VpnConnection>, uuid: Seq<char>, on: bool) -> Seq<
    VpnConnection,
> {
    let i = uuid_index(s, uuid);
    if i >= 0 {
        s.update(i, VpnConnection { autoconnect: on, ..s[i] })
    } else {
        s
    }
}

/// The index of the first connection with this UUID.
fn find_uuid(s: &Vec<VpnConnection>, uuid: &String) -> (r: Option<usize>)
    ensures
        match r {
            Some(i) => i as int == uuid_index(s@, uuid@) && i < s@.len(),
            None => uuid_index(s@, uuid@) == -1,
        },
{
    let u = chars_of(uuid.as_str());
    let mut i: usize = 0;
    assert(s@.skip(0) =~= s@);
    while i < s.len()
        invariant
            i <= s@.len(),
            u@ == uuid@,
            uuid_index(s@, uuid@) == (if uuid_index(s@.skip(i as int), uuid@) >= 0 {
                i + uuid_index(s@.skip(i as int), uuid@)
            } else {
                -1
            }),
        decreases s.len() - i,
    {
        let c = chars_of(s[i].uuid.as_str());
        assert(s@.skip(i as int)[0] == s@[i as int]);
        if chars_eq(&c, &u) {
            return Some(i);
        }
        assert(s@.skip(i as int).drop_first() =~= s@.skip(i + 1));
        i += 1;
    }
    None
}

/// The index of the first secret field with this key, or `-1`.
pub open spec fn field_index(s: Seq<SecretField>, key: Seq<char>) -> int
    decreases s.len(),
{
    if s.len() == 0 {
        -1
    } else if s[0].key@ == key {
        0
    } else if field_index(s.drop_first(), key) >= 0 {
        1 + field_index(s.drop_first(), key)
    } else {
        -1
    }
}

fn find_field(s: &Vec<SecretField>, key: &String) -> (r: Option<usize>)
    ensures
        match r {
            Some(i) => i as int == field_index(s@, key@) && i < s@.len(),
            None => field_index(s@, key@) == -1,
        },
{
    let u = chars_of(key.as_str());
    let mut i: usize = 0;
    assert(s@.skip(0) =~= s@);
    while i < s.len()
        invariant
            i <= s@.len(),
            u@ == key@,
            field_index(s@, key@) == (if field_index(s@.skip(i as int), key@) >= 0 {
                i + field_index(s@.skip(i as int), key@)
            } else {
                -1
            }),
        decreases s.len() - i,
    {
        let c = chars_of(s[i].key.as_str());
        assert(s@.skip(i as int)[0] == s@[i as int]);
        if chars_eq(&c, &u) {
            return Some(i);
        }
        assert(s@.skip(i as int).drop_first() =~= s@.skip(i + 1));
        i += 1;
    }
    None
}

/// The secrets of a prompt: each field's key and value, a later field of the same key
/// replacing an earlier one.
pub open spec fn prompt_secrets(fields: Seq<SecretField>) -> Map<Seq<char>, Seq<char>> {
    pairs_map(fields.map_values(|f: SecretField| (f.key@, f.value@)))
}

/// A failure message: `name: detail`, or the name alone.
pub open spec fn failure_body(name: Seq<char>, detail: Option<Seq<char>>) -> Seq<char> {
    match detail {
        Some(d) => name + ": "@ + d,
        None => name,
    }
}

impl AppletState {
    /// The state before the first load.
    pub fn new() -> (r: AppletState)
        ensures
            r.connections@.len() == 0,
            r.pending@.len() == 0,
            r.expanded is None,
            r.confirm_forget is None,
            r.secret_prompt is None,
            r.editor is None,
            !r.notifications_ready,
            r.error is None,
    {
        AppletState {
            connections: Vec::new(),
            pending: Vec::new(),
            expanded: None,
            confirm_forget: None,
            secret_prompt: None,
            editor: None,
            notifications_ready: false,
            error: None,
        }
    }

    fn add_pending(&mut self, uuid: &String)
        ensures
            string_set(final(self).pending@) == string_set(old(self).pending@).insert(uuid@),
            *final(self) == (AppletState { pending: final(self).pending, ..*old(self) }),
    {
        let u = chars_of(uuid.as_str());
        let mut i: usize = 0;
        while i < self.pending.len()
            invariant
                i <= self.pending@.len(),
                u@ == uuid@,
                *self == *old(self),
                forall|j: int| 0 <= j < i ==> self.pending@[j]@ != uuid@,
            decreases self.pending.len() - i,
        {
            let p = chars_of(self.pending[i].as_str());
            if chars_eq(&p, &u) {
                assert(string_set(self.pending@) =~= string_set(self.pending@).insert(uuid@));
                return ;
            }
            i += 1;
        }
        let ghost before = self.pending@;
        self.pending.push(uuid.clone());
        assert forall|s: Seq<char>| #[trigger] string_set(self.pending@).contains(s) == string_set(
            before,
        ).insert(uuid@).contains(s) by {
            if string_set(before).contains(s) {
                let j = choose|j: int| 0 <= j < before.len() && #[trigger] before[j]@ == s;
                assert(self.pending@[j]@ == s);
            }
            if s == uuid@ {
                assert(self.pending@[before.len() as int]@ == s);
            }
            if string_set(self.pending@).contains(s) && s != uuid@ {
                let j = choose|j: int| 0 <= j < self.pending@.len() && #[trigger] self.pending@[j]@ == s;
                assert(before[j]@ == s);
            }
        }
        assert(string_set(self.pending@) =~= string_set(before).insert(uuid@));
    }

    fn remove_pending(&mut self, uuid: &String)
        ensures
            string_set(final(self).pending@) == string_set(old(self).pending@).remove(uuid@),
            *final(self) == (AppletState { pending: final(self).pending, ..*old(self) }),
    {
        let u = chars_of(uuid.as_str());
        let mut old_pending: Vec<String> = Vec::new();
        std::mem::swap(&mut old_pending, &mut self.pending);
        let ghost before = old_pending@;
        let mut kept: Vec<String> = Vec::new();
        let mut i: usize = 0;
        while i < old_pending.len()
            invariant
                i <= old_pending@.len(),
                before == old_pending@,
                u@ == uuid@,
                forall|s: Seq<char>| #[trigger] string_set(kept@).contains(s) == (string_set(
                    before.take(i as int),
                ).contains(s) && s != uuid@),
            decreases old_pending.len() - i,
        {
            let p = chars_of(old_pending[i].as_str());
            let ghost kb = kept@;
            if !chars_eq(&p, &u) {
                kept.push(old_pending[i].clone());
            }
            assert forall|s: Seq<char>| #[trigger] string_set(kept@).contains(s) == (string_set(
                before.take(i + 1),
            ).contains(s) && s != uuid@) by {
                let t1 = before.take(i + 1);
                if string_set(t1).contains(s) {
                    let j = choose|j: int| 0 <= j < t1.len() && #[trigger] t1[j]@ == s;
                    if j < i {
                        assert(before.take(i as int)[j]@ == s);
                        assert(string_set(before.take(i as int)).contains(s));
                    }
                }
                if string_set(before.take(i as int)).contains(s) {
                    let j = choose|j: int| 0 <= j < i && #[trigger] before.take(i as int)[j]@ == s;
                    assert(t1[j]@ == s);
                }
                if string_set(kept@).contains(s) {
                    let j = choose|j: int| 0 <= j < kept@.len() && #[trigger] kept@[j]@ == s;
                    if j < kb.len() {
                        assert(kb[j]@ == s);
                        assert(string_set(kb).contains(s));
                    } else {
                        assert(t1[i as int]@ == s);
                    }
                }
                if string_set(kb).contains(s) {
                    let j = choose|j: int| 0 <= j < kb.len() && #[trigger] kb[j]@ == s;
                    assert(kept@[j]@ == s);
                }
                if s == before[i as int]@ && s != uuid@ {
                    assert(kept@[kb.len() as int]@ == s);
                    assert(t1[i as int]@ == s);
                }
            }
            i += 1;
        }
        assert(before.take(before.len() as int) =~= before);
        self.pending = kept;
        assert(string_set(self.pending@) =~= string_set(before).remove(uuid@));
    }

    fn set_status(&mut self, uuid: &String, status: VpnStatus)
        ensures
            final(self).connections@ == with_status(old(self).connections@, uuid@, status),
            *final(self) == (AppletState { connections: final(self).connections, ..*old(self) }),
    {
        proof {
            lemma_uuid_index(self.connections@, uuid@);
        }
        match find_uuid(&self.connections, uuid) {
            Some(i) => {
                let mut c = self.connections.remove(i);
                c.status = status;
                self.connections.insert(i, c);
                assert(self.connections@ =~= with_status(old(self).connections@, uuid@, status));
            },
            None => {},
        }
    }

    /// A refresh succeeded with this connection list: it replaces the list and clears
    /// the error. Once notifications are ready and not muted, the status transitions
    /// are notified; the first load only makes them ready.
    pub fn loaded(&mut self, connections: Vec<VpnConnection>, muted: bool) -> (e: Effect)
        ensures
            *final(self) == (AppletState {
                connections,
                error: None,
                notifications_ready: true,
                ..*old(self)
            }),
            old(self).notifications_ready && !muted && transitions_spec(
                old(self).connections@,
                connections@,
            ).len() > 0 ==> (match e {
                Effect::Notify(v) => notice_views(v@) == transitions_spec(
                    old(self).connections@,
                    connections@,
                ),
                _ => false,
            }),
            !(old(self).notifications_ready && !muted && transitions_spec(
                old(self).connections@,
                connections@,
            ).len() > 0) ==> e is Idle,
    {
        let events = if self.notifications_ready && !muted {
            status_transitions(&self.connections, &connections)
        } else {
            self.notifications_ready = true;
            Vec::new()
        };
        self.connections = connections;
        self.error = None;
        if events.len() > 0 {
            Effect::Notify(events)
        } else {
            Effect::Idle
        }
    }

    /// A refresh failed with this message.
    pub fn load_failed(&mut self, error: String)
        ensures
            *final(self) == (AppletState { error: Some(error), ..*old(self) }),
    {
        self.error = Some(error);
    }

    /// Activate a connection: it is marked pending and shown as connecting.
    pub fn activate(&mut self, uuid: String) -> (e: Effect)
        ensures
            string_set(final(self).pending@) == string_set(old(self).pending@).insert(uuid@),
            final(self).connections@ == with_status(old(self).connections@, uuid@, VpnStatus::Connecting),
            *final(self) == (AppletState {
                pending: final(self).pending,
                connections: final(self).connections,
                ..*old(self)
            }),
            e == Effect::Activate(uuid),
    {
        self.add_pending(&uuid);
        self.set_status(&uuid, VpnStatus::Connecting);
        Effect::Activate(uuid)
    }

    /// Deactivate a connection: it is marked pending and shown as disconnecting.
    pub fn deactivate(&mut self, uuid: String) -> (e: Effect)
        ensures
            string_set(final(self).pending@) == string_set(old(self).pending@).insert(uuid@),
            final(self).connections@ == with_status(
                old(self).connections@,
                uuid@,
                VpnStatus::Disconnecting,
            ),
            *final(self) == (AppletState {
                pending: final(self).pending,
                connections: final(self).connections,
                ..*old(self)
            }),
            e == Effect::Deactivate(uuid),
    {
        self.add_pending(&uuid);
        self.set_status(&uuid, VpnStatus::Disconnecting);
        Effect::Deactivate(uuid)
    }

    /// An operation on a connection finished: it is no longer pending, a failure is
    /// shown, and the list is reloaded to reconcile the optimistic state.
    pub fn op_finished(&mut self, uuid: String, result: Result<(), String>) -> (e: Effect)
        ensures
            string_set(final(self).pending@) == string_set(old(self).pending@).remove(uuid@),
            final(self).error == (match result {
                Err(msg) => Some(msg),
                Ok(()) => old(self).error,
            }),
            *final(self) == (AppletState {
                pending: final(self).pending,
                error: final(self).error,
                ..*old(self)
            }),
            e is Load,
    {
        self.remove_pending(&uuid);
        match result {
            Err(msg) => self.error = Some(msg),
            Ok(()) => {},
        }
        Effect::Load
    }

    /// Expand or collapse a connection's detail panel (collapsing the one that is
    /// open); any forget confirmation is dismissed.
    pub fn toggle_expand(&mut self, uuid: String)
        ensures
            final(self).confirm_forget is None,
            final(self).expanded == (if opt_view(old(self).expanded) == Some(uuid@) {
                None
            } else {
                Some(uuid)
            }),
            *final(self) == (AppletState {
                confirm_forget: None,
                expanded: final(self).expanded,
                ..*old(self)
            }),
    {
        self.confirm_forget = None;
        let same = match &self.expanded {
            Some(x) => crate::text::str_eq(x.as_str(), uuid.as_str()),
            None => false,
        };
        self.expanded = if same {
            None
        } else {
            Some(uuid)
        };
    }

    /// Set autoconnect of a connection: shown at once, marked pending, and sent.
    pub fn set_autoconnect(&mut self, uuid: String, on: bool) -> (e: Effect)
        ensures
            final(self).connections@ == with_autoconnect(old(self).connections@, uuid@, on),
            string_set(final(self).pending@) == string_set(old(self).pending@).insert(uuid@),
            *final(self) == (AppletState {
                pending: final(self).pending,
                connections: final(self).connections,
                ..*old(self)
            }),
            e == Effect::SetAutoconnect(uuid, on),
    {
        proof {
            lemma_uuid_index(self.connections@, uuid@);
        }
        match find_uuid(&self.connections, &uuid) {
            Some(i) => {
                let mut c = self.connections.remove(i);
                c.autoconnect = on;
                self.connections.insert(i, c);
                assert(self.connections@ =~= with_autoconnect(old(self).connections@, uuid@, on));
            },
            None => {},
        }
        self.add_pending(&uuid);
        Effect::SetAutoconnect(uuid, on)
    }

    /// Ask to forget a connection (shows a confirmation).
    pub fn request_forget(&mut self, uuid: String)
        ensures
            *final(self) == (AppletState { confirm_forget: Some(uuid), ..*old(self) }),
    {
        self.confirm_forget = Some(uuid);
    }

    /// Dismiss the forget confirmation.
    pub fn cancel_forget(&mut self)
        ensures
            *final(self) == (AppletState { confirm_forget: None, ..*old(self) }),
    {
        self.confirm_forget = None;
    }

    /// Confirm forgetting a connection: it is marked pending and deleted.
    pub fn confirm_forget(&mut self, uuid: String) -> (e: Effect)
        ensures
            string_set(final(self).pending@) == string_set(old(self).pending@).insert(uuid@),
            *final(self) == (AppletState {
                confirm_forget: None,
                pending: final(self).pending,
                ..*old(self)
            }),
            e == Effect::Forget(uuid),
    {
        self.confirm_forget = None;
        self.add_pending(&uuid);
        Effect::Forget(uuid)
    }

    /// Duplicate a connection.
    pub fn duplicate(&mut self, uuid: String) -> (e: Effect)
        ensures
            *final(self) == (AppletState { error: None, ..*old(self) }),
            e == Effect::Duplicate(uuid),
    {
        self.error = None;
        Effect::Duplicate(uuid)
    }

    /// What the popup shows: the editor when open, else the last error, else the
    /// connections (or a note that there are none).
    pub fn popup_body(&self) -> (r: PopupBody)
        ensures
            r == (if self.editor is Some {
                PopupBody::Editor
            } else if self.error is Some {
                PopupBody::Error
            } else if self.connections@.len() == 0 {
                PopupBody::Empty
            } else {
                PopupBody::List
            }),
    {
        if self.editor.is_some() {
            PopupBody::Editor
        } else if self.error.is_some() {
            PopupBody::Error
        } else if self.connections.len() == 0 {
            PopupBody::Empty
        } else {
            PopupBody::List
        }
    }

    /// Whether an operation on this connection is in flight.
    pub fn is_pending(&self, uuid: &String) -> (r: bool)
        ensures
            r == string_set(self.pending@).contains(uuid@),
    {
        let u = chars_of(uuid.as_str());
        let mut i: usize = 0;
        while i < self.pending.len()
            invariant
                i <= self.pending@.len(),
                u@ == uuid@,
                forall|j: int| 0 <= j < i ==> self.pending@[j]@ != uuid@,
            decreases self.pending.len() - i,
        {
            let p = chars_of(self.pending[i].as_str());
            if chars_eq(&p, &u) {
                assert(self.pending@[i as int]@ == uuid@);
                return true;
            }
            i += 1;
        }
        false
    }

    /// The periodic tick: while the popup is open with an active connection, reload so
    /// durations and counters advance.
    pub fn tick(&self, popup_open: bool) -> (e: Effect)
        ensures
            (popup_open && exists|i: int|
                0 <= i < self.connections@.len() && status_active(
                    #[trigger] self.connections@[i].status,
                )) ==> e is Load,
            !(popup_open && exists|i: int|
                0 <= i < self.connections@.len() && status_active(
                    #[trigger] self.connections@[i].status,
                )) ==> e is Idle,
    {
        if !popup_open {
            return Effect::Idle;
        }
        let mut i: usize = 0;
        while i < self.connections.len()
            invariant
                popup_open,
                i <= self.connections@.len(),
                forall|j: int| 0 <= j < i ==> !status_active(#[trigger] self.connections@[j].status),
            decreases self.connections.len() - i,
        {
            if self.connections[i].status.is_active() {
                assert(status_active(self.connections@[i as int].status));
                return Effect::Load;
            }
            i += 1;
        }
        Effect::Idle
    }

    /// NetworkManager requested secrets: show the prompt, opening the popup.
    pub fn secret_requested(&mut self, prompt: SecretPrompt) -> (e: Effect)
        ensures
            *final(self) == (AppletState { secret_prompt: Some(prompt), ..*old(self) }),
            e is OpenPopup,
    {
        self.secret_prompt = Some(prompt);
        Effect::OpenPopup
    }

    /// The user edited a secret field: the first field of that key takes the value.
    pub fn secret_input(&mut self, key: String, value: String)
        ensures
            final(self).secret_prompt == (match old(self).secret_prompt {
                Some(p) => Some(
                    if field_index(p.fields@, key@) >= 0 {
                        SecretPrompt {
                            fields: final(self).secret_prompt->0.fields,
                            ..p
                        }
                    } else {
                        p
                    },
                ),
                None => None,
            }),
            match (old(self).secret_prompt, final(self).secret_prompt) {
                (Some(p), Some(q)) => field_index(p.fields@, key@) >= 0 ==> q.fields@ == p.fields@.update(
                    field_index(p.fields@, key@),
                    SecretField { value: value, ..p.fields@[field_index(p.fields@, key@)] },
                ),
                _ => true,
            },
            *final(self) == (AppletState { secret_prompt: final(self).secret_prompt, ..*old(self) }),
    {
        match self.secret_prompt.take() {
            Some(mut p) => {
                match find_field(&p.fields, &key) {
                    Some(i) => {
                        let mut f = p.fields.remove(i);
                        f.value = value;
                        p.fields.insert(i, f);
                    },
                    None => {},
                }
                self.secret_prompt = Some(p);
            },
            None => {},
        }
    }

    /// Toggle masking of the first secret field of that key.
    pub fn toggle_secret_visibility(&mut self, key: String)
        ensures
            match (old(self).secret_prompt, final(self).secret_prompt) {
                (Some(p), Some(q)) => q.connection_id == p.connection_id && q.fields@ == (if field_index(
                    p.fields@,
                    key@,
                ) >= 0 {
                    p.fields@.update(
                        field_index(p.fields@, key@),
                        SecretField {
                            hidden: !p.fields@[field_index(p.fields@, key@)].hidden,
                            ..p.fields@[field_index(p.fields@, key@)]
                        },
                    )
                } else {
                    p.fields@
                }),
                (None, None) => true,
                _ => false,
            },
            *final(self) == (AppletState { secret_prompt: final(self).secret_prompt, ..*old(self) }),
    {
        match self.secret_prompt.take() {
            Some(mut p) => {
                match find_field(&p.fields, &key) {
                    Some(i) => {
                        let mut f = p.fields.remove(i);
                        f.hidden = !f.hidden;
                        p.fields.insert(i, f);
                        assert(p.fields@ =~= old(self).secret_prompt->0.fields@.update(i as int, f));
                    },
                    None => {},
                }
                self.secret_prompt = Some(p);
            },
            None => {},
        }
    }

    /// Submit the entered secrets: the prompt closes and its secrets are sent.
    pub fn submit_secret(&mut self) -> (e: Effect)
        ensures
            final(self).secret_prompt is None,
            *final(self) == (AppletState { secret_prompt: None, ..*old(self) }),
            match old(self).secret_prompt {
                Some(p) => match e {
                    Effect::SendSecrets(m) => m.well_formed() && m@ == prompt_secrets(p.fields@),
                    _ => false,
                },
                None => e is Idle,
            },
    {
        match self.secret_prompt.take() {
            Some(p) => {
                let mut m = StringMap::new();
                let mut i: usize = 0;
                let ghost fs = p.fields@;
                let ghost pv = fs.map_values(|f: SecretField| (f.key@, f.value@));
                while i < p.fields.len()
                    invariant
                        i <= p.fields@.len(),
                        fs == p.fields@,
                        pv == fs.map_values(|f: SecretField| (f.key@, f.value@)),
                        m.well_formed(),
                        m@ == pairs_map(pv.take(i as int)),
                    decreases p.fields.len() - i,
                {
                    m.insert(p.fields[i].key.clone(), p.fields[i].value.clone());
                    assert(pv.take(i + 1).drop_last() =~= pv.take(i as int));
                    assert(pv.take(i + 1).last() == pv[i as int]);
                    i += 1;
                }
                assert(pv.take(pv.len() as int) =~= pv);
                Effect::SendSecrets(m)
            },
            None => Effect::Idle,
        }
    }

    /// Dismiss the prompt and tell NetworkManager no secrets will come.
    pub fn cancel_secret(&mut self) -> (e: Effect)
        ensures
            *final(self) == (AppletState { secret_prompt: None, ..*old(self) }),
            old(self).secret_prompt is Some ==> e is CancelSecrets,
            old(self).secret_prompt is None ==> e is Idle,
    {
        match self.secret_prompt.take() {
            Some(_) => Effect::CancelSecrets,
            None => Effect::Idle,
        }
    }

    /// NetworkManager cancelled the outstanding secret request.
    pub fn secret_cancelled(&mut self)
        ensures
            *final(self) == (AppletState { secret_prompt: None, ..*old(self) }),
    {
        self.secret_prompt = None;
    }

    /// A VPN failed to activate: the failure is shown as the error and, unless muted,
    /// notified. `detail` is the text for the failure reason, if it has one.
    pub fn vpn_failed(&mut self, name: String, detail: Option<String>, muted: bool) -> (e: Effect)
        ensures
            opt_view(final(self).error) == Some(failure_body(name@, opt_view(detail))),
            *final(self) == (AppletState { error: final(self).error, ..*old(self) }),
            !muted ==> (match e {
                Effect::Notify(v) => notice_views(v@) == seq![
                    (Notice::Failed, failure_body(name@, opt_view(detail))),
                ],
                _ => false,
            }),
            muted ==> e is Idle,
    {
        let mut body = chars_of(name.as_str());
        match &detail {
            Some(d) => {
                crate::text::push_str(&mut body, ": ");
                let dv = chars_of(d.as_str());
                crate::text::push_all(&mut body, &dv);
            },
            None => {},
        }
        assert(body@ =~= failure_body(name@, opt_view(detail)));
        self.error = Some(string_from(&body));
        if !muted {
            let mut v: Vec<(Notice, String)> = Vec::new();
            v.push((Notice::Failed, string_from(&body)));
            assert(notice_views(v@) =~= seq![(Notice::Failed, body@)]);
            Effect::Notify(v)
        } else {
            Effect::Idle
        }
    }

    /// Open the file picker to import a config.
    pub fn import_requested(&mut self) -> (e: Effect)
        ensures
            *final(self) == (AppletState { error: None, ..*old(self) }),
            e is PickImportFile,
    {
        self.error = None;
        Effect::PickImportFile
    }

    /// An import finished: a failure is shown (on success the live list refreshes).
    pub fn import_finished(&mut self, result: Result<(), String>)
        ensures
            *final(self) == (AppletState {
                error: match result {
                    Err(msg) => Some(msg),
                    Ok(()) => old(self).error,
                },
                ..*old(self)
            }),
    {
        match result {
            Err(msg) => self.error = Some(msg),
            Ok(()) => {},
        }
    }

    /// Open the editor to create a connection, offering these plugins.
    pub fn open_create(&mut self, plugins: Vec<VpnPlugin>)
        ensures
            final(self).error is None,
            match final(self).editor {
                Some(e) => e.plugins == plugins && crate::editor::is_blank(e),
                None => false,
            },
            *final(self) == (AppletState { error: None, editor: final(self).editor, ..*old(self) }),
    {
        self.error = None;
        self.editor = Some(Editor::new(plugins));
    }

    /// Open the editor for a connection: its fields are read, as a WireGuard tunnel
    /// when the (first) connection of that UUID is one, else as a plugin VPN.
    pub fn open_edit(&mut self, uuid: String) -> (e: Effect)
        ensures
            *final(self) == (AppletState { error: None, ..*old(self) }),
            ({
                let i = uuid_index(old(self).connections@, uuid@);
                if i >= 0 && old(self).connections@[i].kind == VpnKind::WireGuard {
                    e == Effect::ReadWireGuard(uuid)
                } else {
                    e == Effect::ReadVpn(uuid)
                }
            }),
    {
        self.error = None;
        let is_wireguard = match find_uuid(&self.connections, &uuid) {
            Some(i) => self.connections[i].kind == VpnKind::WireGuard,
            None => false,
        };
        if is_wireguard {
            Effect::ReadWireGuard(uuid)
        } else {
            Effect::ReadVpn(uuid)
        }
    }

    /// A plugin VPN's fields were read (or the read failed).
    pub fn edit_loaded(&mut self, uuid: String, result: Result<VpnEdit, String>)
        ensures
            match result {
                Ok(edit) => match final(self).editor {
                    Some(e) => vpn_editor_spec(e, uuid, edit) && *final(self) == (AppletState {
                        editor: final(self).editor,
                        ..*old(self)
                    }),
                    None => false,
                },
                Err(msg) => *final(self) == (AppletState { error: Some(msg), ..*old(self) }),
            },
    {
        match result {
            Ok(edit) => self.editor = Some(vpn_editor(uuid, edit)),
            Err(msg) => self.error = Some(msg),
        }
    }

    /// A WireGuard tunnel's fields were read (or the read failed).
    pub fn wireguard_edit_loaded(&mut self, uuid: String, result: Result<WgEdit, String>)
        ensures
            match result {
                Ok(edit) => match final(self).editor {
                    Some(e) => wireguard_editor_spec(e, uuid, edit) && *final(self) == (AppletState {
                        editor: final(self).editor,
                        ..*old(self)
                    }),
                    None => false,
                },
                Err(msg) => *final(self) == (AppletState { error: Some(msg), ..*old(self) }),
            },
    {
        match result {
            Ok(edit) => self.editor = Some(wireguard_editor(uuid, edit)),
            Err(msg) => self.error = Some(msg),
        }
    }

    /// Close the editor.
    pub fn editor_cancel(&mut self)
        ensures
            *final(self) == (AppletState { editor: None, ..*old(self) }),
    {
        self.editor = None;
    }

    /// A save finished: on success the editor closes; on failure it stays open, no
    /// longer saving, and the error is shown.
    pub fn editor_saved(&mut self, result: Result<(), String>)
        ensures
            match result {
                Ok(()) => *final(self) == (AppletState { editor: None, ..*old(self) }),
                Err(msg) => *final(self) == (AppletState {
                    editor: match old(self).editor {
                        Some(e) => Some(Editor { saving: false, ..e }),
                        None => None,
                    },
                    error: Some(msg),
                    ..*old(self)
                }),
            },
    {
        match result {
            Ok(()) => self.editor = None,
            Err(msg) => {
                match self.editor.take() {
                    Some(mut e) => {
                        e.saving = false;
                        self.editor = Some(e);
                    },
                    None => {},
                }
                self.error = Some(msg);
            },
        }
    }

    /// Save the editor: with a non-blank name and no save in flight, the editor is
    /// marked saving and the WireGuard or plugin spec is created, or updated in edit
    /// mode; a plugin editor with no type chosen does nothing.
    pub fn editor_save(&mut self) -> (r: Effect)
        ensures
            match old(self).editor {
                Some(e) => if trim(e.name@).len() > 0 && !e.saving && (e.is_wireguard
                    || e.service_type is Some) {
                    &&& *final(self) == (AppletState {
                        editor: Some(Editor { saving: true, ..e }),
                        ..*old(self)
                    })
                    &&& if e.is_wireguard {
                        match (e.edit_uuid, r) {
                            (Some(u), Effect::UpdateWireGuard(u2, s)) => u2 == u
                                && wireguard_save_spec(s, e),
                            (None, Effect::CreateWireGuard(s)) => wireguard_save_spec(s, e),
                            _ => false,
                        }
                    } else {
                        match (e.edit_uuid, r) {
                            (Some(u), Effect::UpdateVpn(u2, s)) => u2 == u && vpn_save_spec(
                                s,
                                e,
                                e.service_type->0,
                            ),
                            (None, Effect::CreateVpn(s)) => vpn_save_spec(s, e, e.service_type->0),
                            _ => false,
                        }
                    }
                } else {
                    *final(self) == *old(self) && r is Idle
                },
                None => *final(self) == *old(self) && r is Idle,
            },
    {
        match self.editor.take() {
            Some(mut e) => {
                if e.can_save() && (e.is_wireguard || e.service_type.is_some()) {
                    let r = if e.is_wireguard {
                        let spec = e.wireguard_spec();
                        match &e.edit_uuid {
                            Some(u) => Effect::UpdateWireGuard(u.clone(), spec),
                            None => Effect::CreateWireGuard(spec),
                        }
                    } else {
                        let st = match &e.service_type {
                            Some(s) => s.clone(),
                            None => empty_string(),
                        };
                        let spec = e.vpn_spec(st);
                        match &e.edit_uuid {
                            Some(u) => Effect::UpdateVpn(u.clone(), spec),
                            None => Effect::CreateVpn(spec),
                        }
                    };
                    e.saving = true;
                    self.editor = Some(e);
                    r
                } else {
                    self.editor = Some(e);
                    Effect::Idle
                }
            },
            None => Effect::Idle,
        }
    }

    /// Apply `f` to the open editor, if any.
    pub fn editor_set_text(&mut self, f: EditorText, v: String)
        ensures
            *final(self) == (AppletState {
                editor: match old(self).editor {
                    Some(e) => Some(crate::editor::with_text(e, f, v)),
                    None => None,
                },
                ..*old(self)
            }),
    {
        match self.editor.take() {
            Some(mut e) => {
                e.set_text(f, v);
                self.editor = Some(e);
            },
            None => {},
        }
    }

    /// Toggle the editor's autoconnect (`split == false`) or split-tunnel
    /// (`split == true`) switch to `on`.
    pub fn editor_set_flag(&mut self, split: bool, on: bool)
        ensures
            *final(self) == (AppletState {
                editor: match old(self).editor {
                    Some(e) => Some(
                        if split {
                            Editor { never_default: on, ..e }
                        } else {
                            Editor { autoconnect: on, ..e }
                        },
                    ),
                    None => None,
                },
                ..*old(self)
            }),
    {
        match self.editor.take() {
            Some(mut e) => {
                if split {
                    e.never_default = on;
                } else {
                    e.autoconnect = on;
                }
                self.editor = Some(e);
            },
            None => {},
        }
    }

    /// Set the editor's metered mode.
    pub fn editor_set_metered(&mut self, metered: i32)
        ensures
            *final(self) == (AppletState {
                editor: match old(self).editor {
                    Some(e) => Some(Editor { metered: metered, ..e }),
                    None => None,
                },
                ..*old(self)
            }),
    {
        match self.editor.take() {
            Some(mut e) => {
                e.metered = metered;
                self.editor = Some(e);
            },
            None => {},
        }
    }
}

} // verus!
