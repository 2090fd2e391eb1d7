use vpn_menu::model::{
    format_bytes, format_duration, format_last_used, looks_like_wireguard_conf, overall_status,
    sort_connections, toggle_action, NewVpn, NewWgPeer, NewWireGuard, ToggleAction, VpnConnection,
    VpnKind, VpnStatus,
};

fn conn(id: &str, status: VpnStatus) -> VpnConnection {
    VpnConnection {
        uuid: format!("uuid-{id}"),
        id: id.to_string(),
        kind: VpnKind::Plugin,
        status,
        service_type: None,
        last_used: 0,
        type_label: "OpenVPN".to_string(),
        gateway: None,
        ip4: None,
        ip6: None,
        dns_servers: Vec::new(),
        rx_bytes: 0,
        tx_bytes: 0,
        autoconnect: false,
    }
}

fn ids(list: &[VpnConnection]) -> Vec<&str> {
    list.iter().map(|c| c.id.as_str()).collect()
}

#[test]
fn format_bytes_scales_units() {
    assert_eq!(format_bytes(512), "512 B");
    assert_eq!(format_bytes(2048), "2.0 KB");
    assert_eq!(format_bytes(5 * 1024 * 1024), "5.0 MB");
}

#[test]
fn format_last_used_is_relative_or_none() {
    assert_eq!(format_last_used(0, 1_000), None);
    assert_eq!(format_last_used(1_000, 1_030).as_deref(), Some("just now"));
    assert_eq!(format_last_used(1_000, 1_180).as_deref(), Some("3 min ago"));
    assert!(format_last_used(0, 7_200).is_none());
    assert_eq!(format_last_used(1, 7_201).as_deref(), Some("2 h ago"));
}

#[test]
fn format_duration_scales_units() {
    assert_eq!(format_duration(9), "9s");
    assert_eq!(format_duration(125), "2m 05s");
    assert_eq!(format_duration(3725), "1h 02m 05s");
}

#[test]
fn wireguard_allowed_ips_parses_and_defaults() {
    let mut peer = NewWgPeer::default();
    assert_eq!(peer.allowed_ips(), vec!["0.0.0.0/0".to_string()]);
    peer.allowed_ips = "10.0.0.0/24, ::/0\n192.168.1.0/24".to_string();
    assert_eq!(
        peer.allowed_ips(),
        vec![
            "10.0.0.0/24".to_string(),
            "::/0".to_string(),
            "192.168.1.0/24".to_string(),
        ]
    );
}

#[test]
fn detects_wireguard_conf_by_interface_section() {
    assert!(looks_like_wireguard_conf(
        "[Interface]\nPrivateKey = x\n[Peer]\nPublicKey = y\n"
    ));
    assert!(looks_like_wireguard_conf("  [interface]  \n"));
    assert!(!looks_like_wireguard_conf(
        "client\nremote vpn.example.com 1194\ndev tun\n"
    ));
}

#[test]
fn is_active_covers_all_non_disconnected_states() {
    assert!(!VpnStatus::Disconnected.is_active());
    assert!(VpnStatus::Connecting.is_active());
    assert!(VpnStatus::Connected.is_active());
    assert!(VpnStatus::Disconnecting.is_active());
    assert!(VpnStatus::Unknown.is_active());
}

#[test]
fn sort_puts_active_first_then_alphabetical() {
    let mut list = vec![
        conn("Zeta", VpnStatus::Disconnected),
        conn("beta", VpnStatus::Disconnected),
        conn("Alpha", VpnStatus::Connected),
        conn("delta", VpnStatus::Connecting),
    ];
    sort_connections(&mut list);
    assert_eq!(ids(&list), vec!["Alpha", "delta", "beta", "Zeta"]);
}

#[test]
fn overall_status_prioritizes_connected_then_connecting() {
    assert_eq!(overall_status(&[]), VpnStatus::Disconnected);
    assert_eq!(
        overall_status(&[conn("a", VpnStatus::Disconnected)]),
        VpnStatus::Disconnected
    );
    assert_eq!(
        overall_status(&[
            conn("a", VpnStatus::Disconnected),
            conn("b", VpnStatus::Connecting),
        ]),
        VpnStatus::Connecting
    );
    assert_eq!(
        overall_status(&[
            conn("a", VpnStatus::Connecting),
            conn("b", VpnStatus::Connected),
        ]),
        VpnStatus::Connected
    );
}

#[test]
fn toggle_action_deactivates_active_activates_inactive() {
    assert_eq!(toggle_action(VpnStatus::Connected), ToggleAction::Deactivate);
    assert_eq!(toggle_action(VpnStatus::Connecting), ToggleAction::Deactivate);
    assert_eq!(toggle_action(VpnStatus::Disconnecting), ToggleAction::Deactivate);
    assert_eq!(toggle_action(VpnStatus::Unknown), ToggleAction::Deactivate);
    assert_eq!(toggle_action(VpnStatus::Disconnected), ToggleAction::Activate);
}

#[test]
fn sort_is_case_insensitive() {
    let mut list = vec![
        conn("bravo", VpnStatus::Disconnected),
        conn("Alpha", VpnStatus::Disconnected),
    ];
    sort_connections(&mut list);
    assert_eq!(ids(&list), vec!["Alpha", "bravo"]);
}

#[test]
fn sort_prefers_recent_use_within_a_group() {
    let mut old = conn("alpha", VpnStatus::Disconnected);
    old.last_used = 100;
    let mut recent = conn("zulu", VpnStatus::Disconnected);
    recent.last_used = 200;
    let mut list = vec![old, recent, conn("mike", VpnStatus::Unknown)];
    sort_connections(&mut list);
    assert_eq!(ids(&list), vec!["mike", "zulu", "alpha"]);
}

#[test]
fn sort_keeps_equal_keys_in_order() {
    let mut first = conn("Same", VpnStatus::Disconnected);
    first.uuid = "first".to_string();
    let mut second = conn("same", VpnStatus::Disconnected);
    second.uuid = "second".to_string();
    let mut list = vec![first, second];
    sort_connections(&mut list);
    let uuids: Vec<&str> = list.iter().map(|c| c.uuid.as_str()).collect();
    assert_eq!(uuids, vec!["first", "second"]);
}

#[test]
fn sorting_twice_changes_nothing() {
    let mut list = vec![
        conn("c", VpnStatus::Disconnected),
        conn("B", VpnStatus::Connected),
        conn("a", VpnStatus::Disconnected),
    ];
    sort_connections(&mut list);
    let once = list.clone();
    sort_connections(&mut list);
    assert_eq!(list, once);
}

#[test]
fn format_bytes_rounds_to_one_decimal() {
    assert_eq!(format_bytes(0), "0 B");
    assert_eq!(format_bytes(1023), "1023 B");
    assert_eq!(format_bytes(1024), "1.0 KB");
    assert_eq!(format_bytes(1280), "1.2 KB");
    assert_eq!(format_bytes(1536), "1.5 KB");
    assert_eq!(format_bytes(3 * 1024 * 1024 * 1024), "3.0 GB");
    assert_eq!(format_bytes(2048 * 1024 * 1024 * 1024), "2048.0 GB");
}

#[test]
fn format_last_used_counts_days_and_clamps_future() {
    assert_eq!(format_last_used(1, 1 + 2 * 86_400).as_deref(), Some("2 d ago"));
    assert_eq!(format_last_used(500, 100).as_deref(), Some("just now"));
    assert_eq!(format_last_used(1, 3601).as_deref(), Some("1 h ago"));
}

#[test]
fn format_duration_pads_minutes_and_seconds() {
    assert_eq!(format_duration(0), "0s");
    assert_eq!(format_duration(60), "1m 00s");
    assert_eq!(format_duration(3600), "1h 00m 00s");
}

#[test]
fn peer_optional_fields_parse() {
    let peer = NewWgPeer {
        public_key: "k".to_string(),
        endpoint: "e:51820".to_string(),
        allowed_ips: String::new(),
        preshared_key: "  psk  ".to_string(),
        persistent_keepalive: " 25 ".to_string(),
    };
    assert_eq!(peer.psk().as_deref(), Some("psk"));
    assert_eq!(peer.keepalive(), Some(25));
    let blank = NewWgPeer {
        preshared_key: "   ".to_string(),
        persistent_keepalive: "0".to_string(),
        ..peer.clone()
    };
    assert_eq!(blank.psk(), None);
    assert_eq!(blank.keepalive(), None);
    let bad = NewWgPeer { persistent_keepalive: "x1".to_string(), ..peer };
    assert_eq!(bad.keepalive(), None);
}

#[test]
fn wireguard_interface_fields_parse() {
    let wg = NewWireGuard {
        name: "wg".to_string(),
        autoconnect: false,
        private_key: "p".to_string(),
        address: "10.0.0.2/24".to_string(),
        dns: "1.1.1.1, 9.9.9.9".to_string(),
        mtu: " 1420 ".to_string(),
        peers: Vec::new(),
    };
    assert_eq!(wg.dns_servers(), vec!["1.1.1.1".to_string(), "9.9.9.9".to_string()]);
    assert_eq!(wg.mtu_value(), Some(1420));
    let unset = NewWireGuard { mtu: String::new(), ..wg };
    assert_eq!(unset.mtu_value(), None);
}

#[test]
fn vpn_lists_split_on_separators() {
    let vpn = NewVpn {
        dns_search: "corp.example, lab.example".to_string(),
        dns: "10.0.0.1\t10.0.0.2".to_string(),
        ..NewVpn::default()
    };
    assert_eq!(
        vpn.search_domains(),
        vec!["corp.example".to_string(), "lab.example".to_string()]
    );
    assert_eq!(
        vpn.dns_entries(),
        vec!["10.0.0.1".to_string(), "10.0.0.2".to_string()]
    );
}

#[test]
fn overall_status_counts_transitions_as_connecting() {
    assert_eq!(
        overall_status(&[conn("a", VpnStatus::Disconnecting)]),
        VpnStatus::Connecting
    );
    assert_eq!(
        overall_status(&[conn("a", VpnStatus::Unknown)]),
        VpnStatus::Connecting
    );
}
