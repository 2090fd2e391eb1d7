use vpn_menu::detail::{
    connected_for, connection_row, detail_rows, update_connected_since, DetailRow,
};
use vpn_menu::model::{ToggleAction, VpnConnection, VpnKind, VpnStatus};
use vpn_menu::vpn_auth::plugin_dirs;

fn conn(uuid: &str, status: VpnStatus) -> VpnConnection {
    VpnConnection {
        uuid: uuid.to_string(),
        id: format!("name-{uuid}"),
        kind: VpnKind::Plugin,
        status,
        service_type: None,
        last_used: 0,
        type_label: "OpenVPN".to_string(),
        gateway: None,
        ip4: None,
        ip6: None,
        dns_servers: Vec::new(),
        rx_bytes: 0,
        tx_bytes: 0,
        autoconnect: false,
    }
}

#[test]
fn detail_rows_of_a_connected_tunnel() {
    let mut c = conn("a", VpnStatus::Connected);
    c.gateway = Some("vpn.example.com".to_string());
    c.ip4 = Some("10.0.0.2/24".to_string());
    c.dns_servers = vec!["10.0.0.1".to_string(), "10.0.0.2".to_string()];
    c.rx_bytes = 2048;
    c.tx_bytes = 512;
    let rows = detail_rows(&c, Some((1536, 0)), Some(125), 0);
    assert_eq!(
        rows,
        vec![
            (DetailRow::Type, "OpenVPN".to_string()),
            (DetailRow::Gateway, "vpn.example.com".to_string()),
            (DetailRow::Ipv4, "10.0.0.2/24".to_string()),
            (DetailRow::Dns, "10.0.0.1, 10.0.0.2".to_string()),
            (DetailRow::Received, "2.0 KB (1.5 KB/s)".to_string()),
            (DetailRow::Sent, "512 B (0 B/s)".to_string()),
            (DetailRow::Duration, "2m 05s".to_string()),
        ]
    );
}

#[test]
fn detail_rows_of_an_idle_connection() {
    let mut c = conn("a", VpnStatus::Disconnected);
    c.rx_bytes = 10;
    c.last_used = 1_000;
    let rows = detail_rows(&c, None, None, 1_180);
    assert_eq!(
        rows,
        vec![
            (DetailRow::Type, "OpenVPN".to_string()),
            (DetailRow::LastUsed, "3 min ago".to_string()),
        ]
    );
    let never = detail_rows(&conn("b", VpnStatus::Disconnected), None, None, 5);
    assert_eq!(never, vec![(DetailRow::Type, "OpenVPN".to_string())]);
    let mut up = conn("c", VpnStatus::Connected);
    up.tx_bytes = 1;
    let rows = detail_rows(&up, None, None, 5);
    assert_eq!(rows[1], (DetailRow::Received, "0 B (0 B/s)".to_string()));
    assert_eq!(rows[2], (DetailRow::Sent, "1 B (0 B/s)".to_string()));
}

#[test]
fn list_rows_toggle_unless_pending() {
    let r = connection_row(VpnStatus::Connected, false, true);
    assert!(!r.busy);
    assert_eq!(r.press, Some(ToggleAction::Deactivate));
    assert_eq!(r.chevron, "go-up-symbolic");
    let r = connection_row(VpnStatus::Disconnected, false, false);
    assert_eq!(r.press, Some(ToggleAction::Activate));
    assert_eq!(r.chevron, "go-down-symbolic");
    let r = connection_row(VpnStatus::Disconnected, true, false);
    assert!(r.busy);
    assert_eq!(r.press, None);
}

#[test]
fn start_times_follow_connected_tunnels() {
    let since = vec![("a".to_string(), 100), ("gone".to_string(), 50)];
    let conns = vec![
        conn("a", VpnStatus::Connected),
        conn("b", VpnStatus::Connected),
        conn("c", VpnStatus::Connecting),
        conn("b", VpnStatus::Connected),
    ];
    let next = update_connected_since(&since, &conns, 900);
    assert_eq!(next, vec![("a".to_string(), 100), ("b".to_string(), 900)]);
    assert_eq!(connected_for(&next, &"b".to_string(), 900 + 3_500_000_000), Some(3));
    assert_eq!(connected_for(&next, &"a".to_string(), 50), Some(0));
    assert_eq!(connected_for(&next, &"c".to_string(), 1), None);
}

#[test]
fn plugin_dirs_honour_the_override() {
    assert_eq!(plugin_dirs(Some("/opt/vpn".to_string())), vec!["/opt/vpn".to_string()]);
    let defaults = plugin_dirs(Some(String::new()));
    assert_eq!(defaults.len(), 4);
    assert_eq!(defaults[1], "/usr/lib/NetworkManager/VPN");
    assert_eq!(plugin_dirs(None), defaults);
}
