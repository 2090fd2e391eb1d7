use vpn_menu::applet::{
    failure_reason, panel_icon, route_secret_request, status_transitions, AppletState, Effect,
    FailureReason, Notice, PopupBody, SecretPrompt, SecretField, SecretRoute,
};
use vpn_menu::editor::EditorText;
use vpn_menu::model::{VpnConnection, VpnEdit, VpnKind, VpnStatus, WgEdit};

fn conn(uuid: &str, id: &str, kind: VpnKind, status: VpnStatus) -> VpnConnection {
    VpnConnection {
        uuid: uuid.to_string(),
        id: id.to_string(),
        kind,
        status,
        service_type: None,
        last_used: 0,
        type_label: "OpenVPN".to_string(),
        gateway: None,
        ip4: None,
        ip6: None,
        dns_servers: Vec::new(),
        rx_bytes: 0,
        tx_bytes: 0,
        autoconnect: false,
    }
}

fn field(key: &str) -> SecretField {
    SecretField { key: key.to_string(), value: String::new(), hidden: true }
}

#[test]
fn transitions_report_connects_and_drops() {
    let old = vec![
        conn("a", "A", VpnKind::Plugin, VpnStatus::Connecting),
        conn("b", "B", VpnKind::Plugin, VpnStatus::Connected),
        conn("c", "C", VpnKind::Plugin, VpnStatus::Unknown),
    ];
    let new = vec![
        conn("a", "A", VpnKind::Plugin, VpnStatus::Connected),
        conn("b", "B", VpnKind::Plugin, VpnStatus::Disconnected),
        conn("c", "C", VpnKind::Plugin, VpnStatus::Disconnected),
        conn("d", "D", VpnKind::Plugin, VpnStatus::Connected),
    ];
    let events = status_transitions(&old, &new);
    assert_eq!(
        events,
        vec![(Notice::Connected, "A".to_string()), (Notice::Disconnected, "B".to_string())]
    );
}

#[test]
fn steady_refresh_notifies_nothing() {
    let list = vec![
        conn("a", "A", VpnKind::Plugin, VpnStatus::Connected),
        conn("b", "B", VpnKind::WireGuard, VpnStatus::Disconnected),
    ];
    assert!(status_transitions(&list, &list).is_empty());
    let mut state = AppletState::new();
    assert!(matches!(state.loaded(list.clone(), false), Effect::Idle));
    assert!(matches!(state.loaded(list, false), Effect::Idle));
}

#[test]
fn first_load_is_silent_then_changes_notify() {
    let mut state = AppletState::new();
    let up = vec![conn("a", "A", VpnKind::Plugin, VpnStatus::Connected)];
    let down = vec![conn("a", "A", VpnKind::Plugin, VpnStatus::Disconnected)];
    assert!(matches!(state.loaded(down.clone(), false), Effect::Idle));
    assert!(state.notifications_ready);
    match state.loaded(up.clone(), false) {
        Effect::Notify(v) => assert_eq!(v, vec![(Notice::Connected, "A".to_string())]),
        _ => panic!("expected a notification"),
    }
    assert!(matches!(state.loaded(down, true), Effect::Idle));
    assert_eq!(state.connections[0].status, VpnStatus::Disconnected);
}

#[test]
fn failure_reasons_cover_actionable_codes() {
    assert_eq!(failure_reason(5), Some(FailureReason::IpConfig));
    assert_eq!(failure_reason(6), Some(FailureReason::Timeout));
    assert_eq!(failure_reason(7), Some(FailureReason::Timeout));
    assert_eq!(failure_reason(8), Some(FailureReason::ServiceFailed));
    assert_eq!(failure_reason(9), Some(FailureReason::NoSecrets));
    assert_eq!(failure_reason(10), Some(FailureReason::LoginFailed));
    assert_eq!(failure_reason(1), None);
    assert_eq!(failure_reason(11), None);
}

#[test]
fn panel_icon_follows_overall_status() {
    assert_eq!(panel_icon(&[]), "network-vpn-disconnected-symbolic");
    assert_eq!(
        panel_icon(&[conn("a", "A", VpnKind::Plugin, VpnStatus::Connecting)]),
        "network-vpn-acquiring-symbolic"
    );
    assert_eq!(
        panel_icon(&[
            conn("a", "A", VpnKind::Plugin, VpnStatus::Connecting),
            conn("b", "B", VpnKind::Plugin, VpnStatus::Connected),
        ]),
        "network-vpn-symbolic"
    );
}

#[test]
fn secret_requests_are_routed() {
    let hints: Vec<String> = Vec::new();
    assert!(matches!(
        route_secret_request(false, "x", true, "Work".to_string(), &hints),
        SecretRoute::Decline
    ));
    assert!(matches!(
        route_secret_request(true, "org.freedesktop.NetworkManager.openvpn", false, "Work".to_string(), &hints),
        SecretRoute::Decline
    ));
    assert!(matches!(
        route_secret_request(true, "org.freedesktop.NetworkManager.openconnect", true, "Work".to_string(), &hints),
        SecretRoute::AuthDialog
    ));
    match route_secret_request(true, "org.freedesktop.NetworkManager.openvpn", true, "Work".to_string(), &hints) {
        SecretRoute::Prompt(p) => {
            assert_eq!(p.connection_id, "Work");
            assert_eq!(p.fields.len(), 1);
            assert_eq!(p.fields[0].key, "password");
            assert!(p.fields[0].hidden && p.fields[0].value.is_empty());
        },
        _ => panic!("expected a prompt"),
    }
    let hints = vec!["password".to_string(), "otp".to_string()];
    match route_secret_request(true, "svc", true, "W".to_string(), &hints) {
        SecretRoute::Prompt(p) => {
            let keys: Vec<&str> = p.fields.iter().map(|f| f.key.as_str()).collect();
            assert_eq!(keys, vec!["password", "otp"]);
        },
        _ => panic!("expected a prompt"),
    }
}

#[test]
fn secret_prompt_collects_and_submits() {
    let mut state = AppletState::new();
    let prompt = SecretPrompt { connection_id: "Work".to_string(), fields: vec![field("password"), field("otp")] };
    assert!(matches!(state.secret_requested(prompt), Effect::OpenPopup));
    state.secret_input("otp".to_string(), "123456".to_string());
    state.secret_input("password".to_string(), "hunter2".to_string());
    state.secret_input("missing".to_string(), "x".to_string());
    state.toggle_secret_visibility("password".to_string());
    {
        let p = state.secret_prompt.as_ref().unwrap();
        assert!(!p.fields[0].hidden);
        assert!(p.fields[1].hidden);
    }
    match state.submit_secret() {
        Effect::SendSecrets(m) => {
            assert_eq!(m.len(), 2);
            assert_eq!(m.get("password").map(String::as_str), Some("hunter2"));
            assert_eq!(m.get("otp").map(String::as_str), Some("123456"));
        },
        _ => panic!("expected secrets"),
    }
    assert!(state.secret_prompt.is_none());
    assert!(matches!(state.submit_secret(), Effect::Idle));
    assert!(matches!(state.cancel_secret(), Effect::Idle));
}

#[test]
fn cancelling_a_prompt_tells_networkmanager() {
    let mut state = AppletState::new();
    state.secret_requested(SecretPrompt { connection_id: "W".to_string(), fields: vec![field("password")] });
    assert!(matches!(state.cancel_secret(), Effect::CancelSecrets));
    assert!(state.secret_prompt.is_none());
    state.secret_requested(SecretPrompt { connection_id: "W".to_string(), fields: Vec::new() });
    state.secret_cancelled();
    assert!(state.secret_prompt.is_none());
}

#[test]
fn activation_is_optimistic_and_pending_until_finished() {
    let mut state = AppletState::new();
    state.loaded(vec![conn("a", "A", VpnKind::Plugin, VpnStatus::Disconnected)], false);
    match state.activate("a".to_string()) {
        Effect::Activate(u) => assert_eq!(u, "a"),
        _ => panic!("expected activation"),
    }
    assert_eq!(state.connections[0].status, VpnStatus::Connecting);
    assert_eq!(state.pending, vec!["a".to_string()]);
    state.activate("a".to_string());
    assert_eq!(state.pending, vec!["a".to_string()]);
    assert!(matches!(state.op_finished("a".to_string(), Err("no".to_string())), Effect::Load));
    assert!(state.pending.is_empty());
    assert_eq!(state.error.as_deref(), Some("no"));
    assert!(matches!(state.deactivate("a".to_string()), Effect::Deactivate(_)));
    assert_eq!(state.connections[0].status, VpnStatus::Disconnecting);
}

#[test]
fn detail_panel_and_forget_flow() {
    let mut state = AppletState::new();
    state.request_forget("a".to_string());
    state.toggle_expand("a".to_string());
    assert_eq!(state.expanded.as_deref(), Some("a"));
    assert!(state.confirm_forget.is_none());
    state.toggle_expand("a".to_string());
    assert!(state.expanded.is_none());
    state.request_forget("b".to_string());
    state.cancel_forget();
    assert!(state.confirm_forget.is_none());
    state.request_forget("b".to_string());
    match state.confirm_forget("b".to_string()) {
        Effect::Forget(u) => assert_eq!(u, "b"),
        _ => panic!("expected forget"),
    }
    assert!(state.confirm_forget.is_none());
    assert_eq!(state.pending, vec!["b".to_string()]);
}

#[test]
fn autoconnect_toggle_is_shown_at_once() {
    let mut state = AppletState::new();
    state.loaded(vec![conn("a", "A", VpnKind::Plugin, VpnStatus::Disconnected)], false);
    assert!(matches!(state.set_autoconnect("a".to_string(), true), Effect::SetAutoconnect(_, true)));
    assert!(state.connections[0].autoconnect);
    assert_eq!(state.pending, vec!["a".to_string()]);
}

#[test]
fn tick_reloads_only_while_open_and_active() {
    let mut state = AppletState::new();
    state.loaded(vec![conn("a", "A", VpnKind::Plugin, VpnStatus::Disconnected)], false);
    assert!(matches!(state.tick(true), Effect::Idle));
    state.loaded(vec![conn("a", "A", VpnKind::Plugin, VpnStatus::Connected)], true);
    assert!(matches!(state.tick(false), Effect::Idle));
    assert!(matches!(state.tick(true), Effect::Load));
}

#[test]
fn vpn_failure_sets_error_and_notifies_unless_muted() {
    let mut state = AppletState::new();
    match state.vpn_failed("Work".to_string(), Some("login failed".to_string()), false) {
        Effect::Notify(v) => assert_eq!(v, vec![(Notice::Failed, "Work: login failed".to_string())]),
        _ => panic!("expected a notification"),
    }
    assert_eq!(state.error.as_deref(), Some("Work: login failed"));
    assert!(matches!(state.vpn_failed("Work".to_string(), None, true), Effect::Idle));
    assert_eq!(state.error.as_deref(), Some("Work"));
    state.load_failed("dbus down".to_string());
    assert_eq!(state.error.as_deref(), Some("dbus down"));
}

#[test]
fn import_and_duplicate_clear_the_error() {
    let mut state = AppletState::new();
    state.load_failed("x".to_string());
    assert!(matches!(state.import_requested(), Effect::PickImportFile));
    assert!(state.error.is_none());
    state.import_finished(Err("bad file".to_string()));
    assert_eq!(state.error.as_deref(), Some("bad file"));
    assert!(matches!(state.duplicate("a".to_string()), Effect::Duplicate(_)));
    assert!(state.error.is_none());
}

#[test]
fn edit_reads_by_connection_kind() {
    let mut state = AppletState::new();
    state.loaded(
        vec![
            conn("p", "P", VpnKind::Plugin, VpnStatus::Disconnected),
            conn("w", "W", VpnKind::WireGuard, VpnStatus::Disconnected),
        ],
        false,
    );
    assert!(matches!(state.open_edit("w".to_string()), Effect::ReadWireGuard(_)));
    assert!(matches!(state.open_edit("p".to_string()), Effect::ReadVpn(_)));
    assert!(matches!(state.open_edit("zzz".to_string()), Effect::ReadVpn(_)));
}

#[test]
fn editing_a_plugin_vpn_saves_an_update() {
    let mut state = AppletState::new();
    let edit = VpnEdit {
        name: " Work ".to_string(),
        autoconnect: true,
        autoconnect_priority: -5,
        metered: 1,
        zone: String::new(),
        never_default: false,
        dns_search: String::new(),
        dns: String::new(),
        service_type: "org.freedesktop.NetworkManager.openvpn".to_string(),
        data: vec![("remote".to_string(), "vpn.example.com".to_string())],
    };
    state.edit_loaded("u1".to_string(), Ok(edit));
    assert_eq!(state.editor.as_ref().unwrap().autoconnect_priority, "-5");
    assert_eq!(state.editor.as_ref().unwrap().kind_name, "openvpn");
    match state.editor_save() {
        Effect::UpdateVpn(u, spec) => {
            assert_eq!(u, "u1");
            assert_eq!(spec.name, "Work");
            assert_eq!(spec.autoconnect_priority, -5);
            assert_eq!(spec.metered, 1);
            assert_eq!(spec.data, vec![("remote".to_string(), "vpn.example.com".to_string())]);
        },
        _ => panic!("expected an update"),
    }
    assert!(state.editor.as_ref().unwrap().saving);
    assert!(matches!(state.editor_save(), Effect::Idle));
    state.editor_saved(Err("denied".to_string()));
    assert!(!state.editor.as_ref().unwrap().saving);
    assert_eq!(state.error.as_deref(), Some("denied"));
    state.editor_saved(Ok(()));
    assert!(state.editor.is_none());
}

#[test]
fn creating_requires_a_name_and_a_type() {
    let mut state = AppletState::new();
    state.open_create(Vec::new());
    assert!(matches!(state.editor_save(), Effect::Idle));
    state.editor_set_text(EditorText::Name, "  ".to_string());
    assert!(matches!(state.editor_save(), Effect::Idle));
    state.editor_set_text(EditorText::Name, "Home".to_string());
    assert!(matches!(state.editor_save(), Effect::Idle));
    state.editor.as_mut().unwrap().select_wireguard();
    state.editor_set_text(EditorText::WgMtu, " 1420 ".to_string());
    state.editor_set_flag(false, true);
    match state.editor_save() {
        Effect::CreateWireGuard(spec) => {
            assert_eq!(spec.name, "Home");
            assert!(spec.autoconnect);
            assert_eq!(spec.mtu, "1420");
            assert_eq!(spec.peers.len(), 1);
        },
        _ => panic!("expected a WireGuard create"),
    }
}

#[test]
fn wireguard_read_failure_is_shown() {
    let mut state = AppletState::new();
    state.wireguard_edit_loaded("w".to_string(), Err("gone".to_string()));
    assert!(state.editor.is_none());
    assert_eq!(state.error.as_deref(), Some("gone"));
    state.wireguard_edit_loaded("w".to_string(), Ok(WgEdit::default()));
    assert!(state.editor.as_ref().unwrap().is_wireguard);
    state.editor_set_metered(2);
    assert_eq!(state.editor.as_ref().unwrap().metered, 2);
    state.editor_cancel();
    assert!(state.editor.is_none());
}

#[test]
fn popup_body_prefers_editor_then_error() {
    let mut state = AppletState::new();
    assert_eq!(state.popup_body(), PopupBody::Empty);
    state.loaded(vec![conn("a", "A", VpnKind::Plugin, VpnStatus::Disconnected)], false);
    assert_eq!(state.popup_body(), PopupBody::List);
    state.load_failed("x".to_string());
    assert_eq!(state.popup_body(), PopupBody::Error);
    state.open_create(Vec::new());
    assert_eq!(state.popup_body(), PopupBody::Editor);
    assert!(!state.is_pending(&"a".to_string()));
    state.activate("a".to_string());
    assert!(state.is_pending(&"a".to_string()));
}
