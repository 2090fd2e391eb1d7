use vpn_menu::model::{VpnKind, VpnStatus};
use vpn_menu::nm::{
    address_with_prefix, assemble_connections, convert, duplicate_name, import_kind_by_content,
    import_kind_by_extension, ipv4_text, is_failure_state, join_strings, keep_in_duplicate,
    label_and_gateway, peer_from_fields, positive_to_text, sort_data_by_key, status_from,
    vpn_data_map, vpn_edit_from, wg_edit_from, zone_if_set, ConnectionExtras, DeviceState,
    ImportKind, VpnFailure, VpnRecord, VpnSettingsRead, VpnTypeInfo,
};

fn record(uuid: &str, id: &str, active: bool, state: DeviceState) -> VpnRecord {
    VpnRecord {
        uuid: uuid.to_string(),
        id: id.to_string(),
        is_wireguard: false,
        service_type: "org.freedesktop.NetworkManager.openvpn".to_string(),
        active,
        state,
        interface: None,
        vpn_type: VpnTypeInfo::OpenVpn { remote: Some("vpn.example.com".to_string()) },
    }
}

fn no_extras() -> ConnectionExtras {
    ConnectionExtras { addresses: Vec::new(), saved: Vec::new(), dns: Vec::new(), traffic: Vec::new() }
}

#[test]
fn inactive_is_always_disconnected() {
    assert_eq!(status_from(false, DeviceState::Activated), VpnStatus::Disconnected);
    assert_eq!(status_from(false, DeviceState::Other(0)), VpnStatus::Disconnected);
}

#[test]
fn active_states_map_to_expected_status() {
    assert_eq!(status_from(true, DeviceState::Activated), VpnStatus::Connected);
    assert_eq!(status_from(true, DeviceState::NeedAuth), VpnStatus::Connecting);
    assert_eq!(status_from(true, DeviceState::Config), VpnStatus::Connecting);
    assert_eq!(status_from(true, DeviceState::Deactivating), VpnStatus::Disconnecting);
    assert_eq!(status_from(true, DeviceState::Failed), VpnStatus::Disconnected);
    assert_eq!(status_from(true, DeviceState::Other(99)), VpnStatus::Unknown);
}

#[test]
fn labels_and_gateways_by_protocol() {
    let (label, gw) = label_and_gateway(&VpnTypeInfo::WireGuard { endpoint: Some("e:1".to_string()) });
    assert_eq!((label.as_str(), gw.as_deref()), ("WireGuard", Some("e:1")));
    let (label, gw) = label_and_gateway(&VpnTypeInfo::StrongSwan { address: None });
    assert_eq!((label.as_str(), gw), ("strongSwan", None));
    let (label, gw) = label_and_gateway(&VpnTypeInfo::Unmodeled);
    assert_eq!((label.as_str(), gw), ("VPN", None));
    let generic = VpnTypeInfo::Generic {
        service_type: "org.freedesktop.NetworkManager.vpnc".to_string(),
        data: vec![
            ("remote".to_string(), "r.example".to_string()),
            ("host".to_string(), "h.example".to_string()),
        ],
    };
    let (label, gw) = label_and_gateway(&generic);
    assert_eq!((label.as_str(), gw.as_deref()), ("vpnc", Some("r.example")));
}

#[test]
fn convert_fills_extras_by_uuid() {
    let rec = record("u1", "Work", true, DeviceState::Activated);
    let extras = ConnectionExtras {
        addresses: vec![("u1".to_string(), (Some("10.0.0.2/24".to_string()), None))],
        saved: vec![("u1".to_string(), (true, 50)), ("u1".to_string(), (false, 70))],
        dns: vec![("u2".to_string(), vec!["1.1.1.1".to_string()])],
        traffic: vec![("u1".to_string(), (10, 20))],
    };
    let c = convert(&rec, &extras);
    assert_eq!(c.uuid, "u1");
    assert_eq!(c.kind, VpnKind::Plugin);
    assert_eq!(c.status, VpnStatus::Connected);
    assert_eq!(c.service_type.as_deref(), Some("org.freedesktop.NetworkManager.openvpn"));
    assert_eq!(c.type_label, "OpenVPN");
    assert_eq!(c.gateway.as_deref(), Some("vpn.example.com"));
    assert_eq!(c.ip4.as_deref(), Some("10.0.0.2/24"));
    assert_eq!(c.ip6, None);
    assert!(!c.autoconnect);
    assert_eq!(c.last_used, 70);
    assert!(c.dns_servers.is_empty());
    assert_eq!((c.rx_bytes, c.tx_bytes), (10, 20));
}

#[test]
fn assembled_list_is_in_display_order() {
    let records = vec![
        record("a", "zeta", false, DeviceState::Disconnected),
        record("b", "Alpha", false, DeviceState::Disconnected),
        record("c", "mid", true, DeviceState::NeedAuth),
    ];
    let list = assemble_connections(&records, &no_extras());
    let ids: Vec<&str> = list.iter().map(|c| c.id.as_str()).collect();
    assert_eq!(ids, vec!["mid", "Alpha", "zeta"]);
}

#[test]
fn failures_carry_name_or_placeholder() {
    assert!(is_failure_state(6));
    assert!(!is_failure_state(5));
    let f = VpnFailure::new(None, 9);
    assert_eq!(f.reason, 9);
    assert_eq!(f.name, "VPN");
    let g = VpnFailure::new(Some("Work".to_string()), 1);
    assert_eq!(g.name, "Work");
}

#[test]
fn import_routes_by_extension_then_content() {
    assert_eq!(import_kind_by_extension("OVPN"), Some(ImportKind::OpenVpn));
    assert_eq!(import_kind_by_extension("conf"), None);
    assert_eq!(import_kind_by_content("[Interface]\n"), ImportKind::WireGuard);
    assert_eq!(import_kind_by_content("client\n"), ImportKind::OpenVpn);
}

#[test]
fn duplicate_drops_identity_fields() {
    assert_eq!(duplicate_name("Work"), "Work (copy)");
    assert!(!keep_in_duplicate("connection", "uuid"));
    assert!(!keep_in_duplicate("connection", "id"));
    assert!(!keep_in_duplicate("connection", "timestamp"));
    assert!(keep_in_duplicate("connection", "autoconnect"));
    assert!(keep_in_duplicate("vpn", "uuid"));
}

#[test]
fn text_helpers_format_numbers_and_lists() {
    assert_eq!(join_strings(&vec!["a".to_string(), "b".to_string()], ", "), "a, b");
    assert_eq!(join_strings(&Vec::new(), " "), "");
    assert_eq!(positive_to_text(Some(1420)), "1420");
    assert_eq!(positive_to_text(Some(0)), "");
    assert_eq!(positive_to_text(None), "");
    assert_eq!(address_with_prefix("10.0.0.2", Some(24)), "10.0.0.2/24");
    assert_eq!(address_with_prefix("10.0.0.2", None), "10.0.0.2/32");
    assert_eq!(ipv4_text([192, 168, 0, 1]), "192.168.0.1");
}

#[test]
fn editor_prefill_from_saved_settings() {
    let peer = peer_from_fields(
        Some("pub".to_string()),
        None,
        &vec!["10.0.0.0/24".to_string(), "::/0".to_string()],
        None,
        Some(0),
    );
    assert_eq!(peer.public_key, "pub");
    assert_eq!(peer.endpoint, "");
    assert_eq!(peer.allowed_ips, "10.0.0.0/24, ::/0");
    assert_eq!(peer.persistent_keepalive, "");
    let wg = wg_edit_from(
        Some("wg0".to_string()),
        None,
        Some("priv".to_string()),
        &vec!["10.0.0.2/24".to_string()],
        &vec!["1.1.1.1".to_string(), "9.9.9.9".to_string()],
        Some(1420),
        vec![peer],
    );
    assert_eq!(wg.name, "wg0");
    assert!(!wg.autoconnect);
    assert_eq!(wg.dns, "1.1.1.1 9.9.9.9");
    assert_eq!(wg.mtu, "1420");
    assert_eq!(wg.peers.len(), 1);
}

#[test]
fn plugin_settings_prefill_sorts_data() {
    let read = VpnSettingsRead {
        name: Some("Work".to_string()),
        autoconnect: Some(true),
        autoconnect_priority: None,
        metered: Some(2),
        zone: None,
        never_default: None,
        dns_search: vec!["corp".to_string()],
        dns: Vec::new(),
        service_type: Some("org.freedesktop.NetworkManager.openvpn".to_string()),
        data: vec![
            ("remote".to_string(), "r".to_string()),
            ("ca".to_string(), "/c".to_string()),
        ],
    };
    let e = vpn_edit_from(read);
    assert_eq!(e.name, "Work");
    assert!(e.autoconnect);
    assert_eq!(e.autoconnect_priority, 0);
    assert_eq!(e.metered, 2);
    assert_eq!(e.zone, "");
    assert_eq!(e.dns_search, "corp");
    assert_eq!(
        e.data,
        vec![("ca".to_string(), "/c".to_string()), ("remote".to_string(), "r".to_string())]
    );
    let sorted = sort_data_by_key(vec![
        ("b".to_string(), "1".to_string()),
        ("a".to_string(), "2".to_string()),
        ("b".to_string(), "3".to_string()),
    ]);
    assert_eq!(
        sorted,
        vec![
            ("a".to_string(), "2".to_string()),
            ("b".to_string(), "1".to_string()),
            ("b".to_string(), "3".to_string()),
        ]
    );
}

#[test]
fn data_map_skips_blank_keys_and_keeps_last_value() {
    let m = vpn_data_map(&vec![
        ("gateway".to_string(), "a".to_string()),
        ("  ".to_string(), "x".to_string()),
        ("gateway".to_string(), "b".to_string()),
    ]);
    assert_eq!(m.len(), 1);
    assert_eq!(m.get("gateway").map(String::as_str), Some("b"));
    assert_eq!(zone_if_set(&"  ".to_string()), None);
    assert_eq!(zone_if_set(&"home".to_string()).as_deref(), Some("home"));
}
