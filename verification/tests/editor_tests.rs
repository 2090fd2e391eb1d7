use vpn_menu::editor::{
    choice_index, enum_dropdown_applies, flag_choice, form_kind, i32_to_string, openvpn_fields,
    vpn_editor, wireguard_editor, Editor, EditorText, FormKind, OpenVpnFields, PeerText,
    WgPeerForm,
};
use vpn_menu::model::{NewWgPeer, VpnEdit, WgEdit};
use vpn_menu::vpn_auth::VpnPlugin;

fn plugin(s: &str, n: &str) -> VpnPlugin {
    VpnPlugin { service_type: s.to_string(), name: n.to_string() }
}

fn sample_edit() -> VpnEdit {
    VpnEdit {
        name: "Office ".to_string(),
        autoconnect: false,
        autoconnect_priority: 2147483647,
        metered: 0,
        zone: " trusted ".to_string(),
        never_default: true,
        dns_search: "corp".to_string(),
        dns: "10.0.0.1".to_string(),
        service_type: "org.freedesktop.NetworkManager.openconnect".to_string(),
        data: vec![("gateway".to_string(), "gw.example".to_string())],
    }
}

#[test]
fn fresh_editor_is_blank() {
    let e = Editor::new(vec![plugin("svc.a", "A")]);
    assert_eq!(e.plugins.len(), 1);
    assert!(e.edit_uuid.is_none() && e.service_type.is_none());
    assert!(e.name.is_empty() && e.data.is_empty() && e.wg_peers.is_empty());
    assert!(!e.can_save());
}

#[test]
fn data_rows_upsert_and_remove() {
    let mut e = Editor::new(Vec::new());
    e.set_data("gateway", "a".to_string());
    e.set_data("user", "u".to_string());
    e.set_data("gateway", "b".to_string());
    assert_eq!(e.data_value("gateway"), "b");
    assert_eq!(e.data_value("user"), "u");
    assert_eq!(
        e.data,
        vec![("user".to_string(), "u".to_string()), ("gateway".to_string(), "b".to_string())]
    );
    e.set_data("user", String::new());
    assert_eq!(e.data_value("user"), "");
    assert_eq!(e.data.len(), 1);
}

#[test]
fn selecting_a_type_sets_protocol_defaults() {
    let mut e = Editor::new(Vec::new());
    e.select_type("org.freedesktop.NetworkManager.openconnect".to_string(), "OpenConnect".to_string());
    assert_eq!(e.data_value("protocol"), "anyconnect");
    assert_eq!(e.kind_name, "OpenConnect");
    let mut o = Editor::new(Vec::new());
    o.set_data("connection-type", "password".to_string());
    o.select_type("org.freedesktop.NetworkManager.openvpn".to_string(), "OpenVPN".to_string());
    assert_eq!(o.data_value("connection-type"), "password");
    let mut t = Editor::new(Vec::new());
    t.select_type("org.freedesktop.NetworkManager.openvpn".to_string(), "OpenVPN".to_string());
    assert_eq!(t.openvpn_connection_type(), "tls");
    assert_eq!(t.data_value("connection-type"), "tls");
}

#[test]
fn form_and_fields_follow_the_type() {
    assert_eq!(form_kind("org.freedesktop.NetworkManager.openconnect"), FormKind::OpenConnect);
    assert_eq!(form_kind("org.freedesktop.NetworkManager.openvpn"), FormKind::OpenVpn);
    assert_eq!(form_kind("org.freedesktop.NetworkManager.vpnc"), FormKind::Vpnc);
    assert_eq!(form_kind("org.freedesktop.NetworkManager.pptp"), FormKind::Generic);
    assert_eq!(
        openvpn_fields("static-key"),
        OpenVpnFields { ca: false, cert_and_key: false, username: false, static_key: true }
    );
    assert_eq!(
        openvpn_fields("password-tls"),
        OpenVpnFields { ca: true, cert_and_key: true, username: true, static_key: false }
    );
    assert_eq!(
        openvpn_fields("tls"),
        OpenVpnFields { ca: true, cert_and_key: true, username: false, static_key: false }
    );
}

#[test]
fn dropdowns_start_on_the_current_value() {
    let opts = ["tls", "password", "password-tls"];
    assert_eq!(choice_index(&opts, "password"), 1);
    assert_eq!(choice_index(&opts, "other"), 0);
    assert!(enum_dropdown_applies(&opts, ""));
    assert!(enum_dropdown_applies(&opts, "tls"));
    assert!(!enum_dropdown_applies(&opts, "custom"));
    assert_eq!(flag_choice(" 2 "), 1);
    assert_eq!(flag_choice("4"), 2);
    assert_eq!(flag_choice("0"), 0);
    assert_eq!(flag_choice(""), 0);
}

#[test]
fn priorities_print_with_sign() {
    assert_eq!(i32_to_string(0), "0");
    assert_eq!(i32_to_string(-2147483648), "-2147483648");
    assert_eq!(i32_to_string(42), "42");
}

#[test]
fn peer_and_data_rows_edit_in_place() {
    let mut e = Editor::new(Vec::new());
    e.select_wireguard();
    assert_eq!(e.wg_peers.len(), 1);
    e.add_peer();
    e.set_peer_text(1, PeerText::Endpoint, "e:51820".to_string());
    e.set_peer_text(9, PeerText::Endpoint, "ignored".to_string());
    assert_eq!(e.wg_peers[1].endpoint, "e:51820");
    e.remove_peer(0);
    assert_eq!(e.wg_peers.len(), 1);
    e.remove_peer(0);
    assert_eq!(e.wg_peers.len(), 1);
    e.add_row();
    e.set_row(0, false, "k".to_string());
    e.set_row(0, true, "v".to_string());
    assert_eq!(e.data, vec![("k".to_string(), "v".to_string())]);
    e.remove_row(3);
    e.remove_row(0);
    assert!(e.data.is_empty());
    e.set_text(EditorText::Zone, "home".to_string());
    assert_eq!(e.zone, "home");
}

#[test]
fn plugin_edit_round_trip_keeps_settings() {
    let edit = sample_edit();
    let e = vpn_editor("u".to_string(), edit.clone());
    let saved = e.vpn_spec(edit.service_type.clone());
    assert_eq!(saved.name, "Office");
    assert_eq!(saved.service_type, edit.service_type);
    assert_eq!(saved.autoconnect, edit.autoconnect);
    assert_eq!(saved.autoconnect_priority, edit.autoconnect_priority);
    assert_eq!(saved.metered, edit.metered);
    assert_eq!(saved.zone, "trusted");
    assert_eq!(saved.never_default, edit.never_default);
    assert_eq!(saved.data, edit.data);
}

#[test]
fn wireguard_edit_round_trip_keeps_settings() {
    let peer = NewWgPeer {
        public_key: " pk ".to_string(),
        endpoint: "e:1".to_string(),
        allowed_ips: "10.0.0.0/8, ::/0".to_string(),
        preshared_key: String::new(),
        persistent_keepalive: "25".to_string(),
    };
    let edit = WgEdit {
        name: "wg0".to_string(),
        autoconnect: true,
        private_key: "priv".to_string(),
        address: "10.0.0.2/24".to_string(),
        dns: "1.1.1.1".to_string(),
        mtu: "1420".to_string(),
        peers: vec![peer],
    };
    let e = wireguard_editor("u".to_string(), edit.clone());
    assert_eq!(e.kind_name, "WireGuard");
    let saved = e.wireguard_spec();
    assert_eq!(saved.name, "wg0");
    assert!(saved.autoconnect);
    assert_eq!(saved.mtu_value(), Some(1420));
    assert_eq!(saved.peers.len(), 1);
    assert_eq!(saved.peers[0].public_key, "pk");
    assert_eq!(saved.peers[0].allowed_ips, "10.0.0.0/8, ::/0");
    assert_eq!(saved.peers[0].keepalive(), Some(25));
}

#[test]
fn wireguard_without_peers_opens_one_blank_row() {
    let e = wireguard_editor("u".to_string(), WgEdit::default());
    assert_eq!(e.wg_peers.len(), 1);
    assert!(e.wg_peers[0].public_key.is_empty());
}

#[test]
fn peer_rows_trim_on_save() {
    let row = WgPeerForm {
        public_key: " k ".to_string(),
        endpoint: " e ".to_string(),
        allowed_ips: " 10.0.0.0/8 ".to_string(),
        preshared_key: " p ".to_string(),
        persistent_keepalive: " 5 ".to_string(),
    };
    let spec = row.to_spec();
    assert_eq!(spec.public_key, "k");
    assert_eq!(spec.endpoint, "e");
    assert_eq!(spec.allowed_ips, " 10.0.0.0/8 ");
    assert_eq!(spec.preshared_key, "p");
    assert_eq!(spec.persistent_keepalive, "5");
    let back = WgPeerForm::from_spec(spec.clone());
    assert_eq!(back.public_key, spec.public_key);
    assert!(WgPeerForm::empty().endpoint.is_empty());
}
