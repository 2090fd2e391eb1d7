use vpn_menu::enums::enum_values;

#[test]
fn resolves_full_and_bare_service_types() {
    let full = enum_values("org.freedesktop.NetworkManager.openconnect", "protocol");
    let bare = enum_values("openconnect", "protocol");
    assert_eq!(full, bare);
    assert!(full.unwrap().contains(&"anyconnect"));
}

#[test]
fn unknown_keys_are_freeform() {
    assert!(enum_values("openvpn", "remote").is_none());
    assert!(enum_values("nonexistent", "connection-type").is_none());
}

#[test]
fn openvpn_connection_types_are_listed_in_order() {
    assert_eq!(
        enum_values("org.freedesktop.NetworkManager.openvpn", "connection-type"),
        Some(&["tls", "password", "password-tls", "static-key"][..])
    );
    assert_eq!(enum_values("vpnc", "Vendor"), Some(&["cisco", "netscreen"][..]));
}
