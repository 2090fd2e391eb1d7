use vpn_menu::vpn_auth::{
    auth_dialog_for, build_argv, label_from_service, parse_name_file, parse_plugin, parse_stdout,
    plugin_list, serialize_stdin, uses_auth_dialog, StringMap, VpnPlugin,
};

#[test]
fn parses_name_file_service_and_auth_dialog() {
    let content = "[VPN Connection]\nname=openconnect\n\
                   service=org.freedesktop.NetworkManager.openconnect\n\
                   program=/x/nm-openconnect-service\n\
                   [GNOME]\nauth-dialog=/x/nm-openconnect-auth-dialog\n\
                   properties=/x/props\n";
    let (service, auth_dialog) = parse_name_file(content);
    assert_eq!(
        service.as_deref(),
        Some("org.freedesktop.NetworkManager.openconnect")
    );
    assert_eq!(auth_dialog, Some("/x/nm-openconnect-auth-dialog".to_string()));
}

#[test]
fn parses_plugin_service_and_name() {
    let content = "[VPN Connection]\nname=OpenVPN\n\
                   service=org.freedesktop.NetworkManager.openvpn\n[GNOME]\n";
    let plugin = parse_plugin(content).expect("plugin");
    assert_eq!(plugin.name, "OpenVPN");
    assert_eq!(plugin.service_type, "org.freedesktop.NetworkManager.openvpn");
    let plugin = parse_plugin("[VPN Connection]\nservice=org.freedesktop.NetworkManager.vpnc\n")
        .expect("plugin");
    assert_eq!(plugin.name, "vpnc");
}

#[test]
fn routes_only_openconnect_by_default() {
    assert!(uses_auth_dialog("org.freedesktop.NetworkManager.openconnect"));
    assert!(!uses_auth_dialog("org.freedesktop.NetworkManager.openvpn"));
}

#[test]
fn build_argv_adds_interaction_and_request_new_flags() {
    assert_eq!(
        build_argv("uuid", "id", "svc", false, false),
        vec!["-u", "uuid", "-n", "id", "-s", "svc"]
    );
    assert_eq!(
        build_argv("uuid", "id", "svc", true, true),
        vec!["-u", "uuid", "-n", "id", "-s", "svc", "-i", "-r"]
    );
}

#[test]
fn serialize_stdin_matches_wire_format() {
    let data = vec![("gateway".to_string(), "vpn.example.com".to_string())];
    let secrets = vec![("cookie".to_string(), "old".to_string())];
    let out = serialize_stdin(&data, &secrets);
    assert_eq!(
        out,
        "DATA_KEY=gateway\nDATA_VAL=vpn.example.com\n\
         SECRET_KEY=cookie\nSECRET_VAL=old\n\
         DONE\n\nQUIT\n\n"
    );
}

#[test]
fn serialize_stdin_replaces_newlines_in_values() {
    let data = vec![("k".to_string(), "a\nb".to_string())];
    let out = serialize_stdin(&data, &[]);
    assert!(out.starts_with("DATA_KEY=k\nDATA_VAL=a b\n"));
}

#[test]
fn parse_stdout_reads_pairs_until_blank_line() {
    let out = "gateway\nvpn.example.com\ncookie\nabc123\n\ntrailing\nignored\n";
    let secrets = parse_stdout(out);
    assert_eq!(secrets.get("gateway").map(String::as_str), Some("vpn.example.com"));
    assert_eq!(secrets.get("cookie").map(String::as_str), Some("abc123"));
    assert_eq!(secrets.len(), 2);
}

#[test]
fn parse_stdout_later_key_wins_and_lone_key_is_empty() {
    let secrets = parse_stdout("a\n1\na\n2\nb");
    assert_eq!(secrets.get("a").map(String::as_str), Some("2"));
    assert_eq!(secrets.get("b").map(String::as_str), Some(""));
    assert_eq!(secrets.len(), 2);
    assert_eq!(parse_stdout("").len(), 0);
    assert_eq!(parse_stdout("\nkey\nvalue\n").len(), 0);
}

#[test]
fn string_map_insert_replaces_value() {
    let mut m = StringMap::new();
    m.insert("k".to_string(), "1".to_string());
    m.insert("j".to_string(), "2".to_string());
    m.insert("k".to_string(), "3".to_string());
    assert_eq!(m.len(), 2);
    assert_eq!(m.get("k").map(String::as_str), Some("3"));
    assert_eq!(m.get("j").map(String::as_str), Some("2"));
    assert_eq!(m.get("x"), None);
    let pairs = m.into_pairs();
    assert_eq!(pairs, vec![("k".to_string(), "3".to_string()), ("j".to_string(), "2".to_string())]);
}

#[test]
fn auth_dialog_only_for_matching_service() {
    let content = "[VPN Connection]\nservice=org.freedesktop.NetworkManager.openconnect\n\
                   [GNOME]\nauth-dialog=/usr/lib/nm-openconnect-auth-dialog\n";
    assert_eq!(
        auth_dialog_for(content, "org.freedesktop.NetworkManager.openconnect").as_deref(),
        Some("/usr/lib/nm-openconnect-auth-dialog")
    );
    assert_eq!(auth_dialog_for(content, "org.freedesktop.NetworkManager.openvpn"), None);
    assert_eq!(auth_dialog_for("[GNOME]\nauth-dialog=/x\n", "svc"), None);
}

#[test]
fn name_file_ignores_keys_outside_their_sections() {
    let (service, auth) = parse_name_file("service=top\n[GNOME]\nservice=g\n[VPN Connection]\nauth-dialog=/v\n");
    assert_eq!(service, None);
    assert_eq!(auth, None);
    assert_eq!(parse_plugin("[GNOME]\nname=x\n"), None);
}

#[test]
fn service_labels_use_last_segment() {
    assert_eq!(label_from_service("org.freedesktop.NetworkManager.vpnc"), "vpnc");
    assert_eq!(label_from_service("plain"), "plain");
    assert_eq!(label_from_service("trailing."), "trailing.");
}

#[test]
fn plugin_list_dedups_and_sorts_by_name() {
    let p = |s: &str, n: &str| VpnPlugin { service_type: s.to_string(), name: n.to_string() };
    let list = plugin_list(vec![
        p("svc.vpnc", "vpnc"),
        p("svc.openvpn", "OpenVPN"),
        p("svc.vpnc", "vpnc (other)"),
        p("svc.anyconnect", "anyconnect"),
    ]);
    let names: Vec<&str> = list.iter().map(|x| x.name.as_str()).collect();
    assert_eq!(names, vec!["anyconnect", "OpenVPN", "vpnc"]);
}

#[test]
fn plugin_and_auth_lookup_read_the_same_service() {
    let content = "[GNOME]\nservice=wrong\n[VPN Connection]\nservice=svc.one\nservice=svc.two\n";
    let (service, _) = parse_name_file(content);
    let plugin = parse_plugin(content).expect("plugin");
    assert_eq!(service.as_deref(), Some("svc.two"));
    assert_eq!(plugin.service_type, "svc.two");
    assert_eq!(parse_name_file("[GNOME]\nauth-dialog=/x\n").0, None);
    assert_eq!(parse_plugin("[GNOME]\nauth-dialog=/x\n"), None);
}
