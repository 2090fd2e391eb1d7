//! Closed-enum value sets for well-known per-protocol `vpn.data` keys.
//!
//! When a connection's advanced `vpn.data` key is a closed enumeration (a small,
//! fixed set of valid strings), the editor offers a dropdown instead of a free-form
//! text field. Keys not listed here stay free-form.
use vstd::prelude::*;

use crate::text::{chars_eq_str, chars_of, split_by, split_chars, vec_views, lemma_split_by_nonempty};

verus! {

/// The plugin's short name: the part of a service type after its last `'.'`
/// (`org.freedesktop.NetworkManager.openvpn` and `openvpn` both give `openvpn`).
pub open spec fn plugin_short_name(service_type: Seq<char>) -> Seq<char> {
    split_by(service_type, seq!['.']).last()
}

/// The allowed values of a closed-enum key of a plugin, or `None` for a free-form key.
pub open spec fn enum_table(plugin: Seq<char>, key: Seq<char>) -> Option<Seq<Seq<char>>> {
    if plugin == "openvpn"@ && key == "connection-type"@ {
        Some(seq!["tls"@, "password"@, "password-tls"@, "static-key"@])
    } else if plugin == "openvpn"@ && key == "auth"@ {
        Some(
            seq![
                "SHA1"@,
                "SHA224"@,
                "SHA256"@,
                "SHA384"@,
                "SHA512"@,
                "MD5"@,
                "RIPEMD160"@,
                "none"@,
            ],
        )
    } else if plugin == "openvpn"@ && key == "key-direction"@ {
        Some(seq!["0"@, "1"@])
    } else if plugin == "openvpn"@ && key == "remote-cert-tls"@ {
        Some(seq!["server"@, "client"@])
    } else if plugin == "openvpn"@ && key == "tls-crypt-v2-force-cookie"@ {
        Some(seq!["yes"@, "no"@])
    } else if plugin == "openconnect"@ && key == "protocol"@ {
        Some(seq!["anyconnect"@, "nc"@, "gp"@, "pulse"@, "f5"@, "fortinet"@, "array"@])
    } else if plugin == "vpnc"@ && key == "NAT Traversal Mode"@ {
        Some(seq!["natt"@, "none"@, "force-natt"@, "cisco-udp"@])
    } else if plugin == "vpnc"@ && key == "Perfect Forward Secrecy"@ {
        Some(seq!["server"@, "nopfs"@, "dh1"@, "dh2"@, "dh5"@])
    } else if plugin == "vpnc"@ && key == "IKE DH Group"@ {
        Some(seq!["dh1"@, "dh2"@, "dh5"@])
    } else if plugin == "vpnc"@ && key == "Vendor"@ {
        Some(seq!["cisco"@, "netscreen"@])
    } else {
        None
    }
}

/// The views of a list of string slices.
pub open spec fn str_views(v: Seq<&str>) -> Seq<Seq<char>> {
    v.map_values(|s: &str| s@)
}

/// The short name of a plugin service type.
pub fn plugin_short_name_of(service_type: &str) -> (r: Vec<char>)
    ensures
        r@ == plugin_short_name(service_type@),
{
    let chars = chars_of(service_type);
    let mut dot: Vec<char> = Vec::new();
    dot.push('.');
    assert(dot@ =~= seq!['.']);
    let mut pieces = split_chars(&chars, &dot);
    proof {
        lemma_split_by_nonempty(service_type@, seq!['.']);
    }
    let ghost views = vec_views(pieces@);
    let last = pieces.pop().unwrap();
    assert(last@ == views.last());
    last
}

/// Return the allowed values for a known enum `key` under `service_type`, or `None`
/// when the key is free-form (the caller then renders a text field).
pub fn enum_values(service_type: &str, key: &str) -> (r: Option<&'static [&'static str]>)
    ensures
        match r {
            Some(v) => enum_table(plugin_short_name(service_type@), key@) == Some(str_views(v@)),
            None => enum_table(plugin_short_name(service_type@), key@) is None,
        },
{
    let plugin = plugin_short_name_of(service_type);
    let k = chars_of(key);
    let openvpn = chars_eq_str(&plugin, "openvpn");
    let openconnect = chars_eq_str(&plugin, "openconnect");
    let vpnc = chars_eq_str(&plugin, "vpnc");
    let r: Option<&'static [&'static str]> = if openvpn && chars_eq_str(&k, "connection-type") {
        Some(&["tls", "password", "password-tls", "static-key"])
    } else if openvpn && chars_eq_str(&k, "auth") {
        Some(&["SHA1", "SHA224", "SHA256", "SHA384", "SHA512", "MD5", "RIPEMD160", "none"])
    } else if openvpn && chars_eq_str(&k, "key-direction") {
        Some(&["0", "1"])
    } else if openvpn && chars_eq_str(&k, "remote-cert-tls") {
        Some(&["server", "client"])
    } else if openvpn && chars_eq_str(&k, "tls-crypt-v2-force-cookie") {
        Some(&["yes", "no"])
    } else if openconnect && chars_eq_str(&k, "protocol") {
        Some(&["anyconnect", "nc", "gp", "pulse", "f5", "fortinet", "array"])
    } else if vpnc && chars_eq_str(&k, "NAT Traversal Mode") {
        Some(&["natt", "none", "force-natt", "cisco-udp"])
    } else if vpnc && chars_eq_str(&k, "Perfect Forward Secrecy") {
        Some(&["server", "nopfs", "dh1", "dh2", "dh5"])
    } else if vpnc && chars_eq_str(&k, "IKE DH Group") {
        Some(&["dh1", "dh2", "dh5"])
    } else if vpnc && chars_eq_str(&k, "Vendor") {
        Some(&["cisco", "netscreen"])
    } else {
        None
    };
    proof {
        match r {
            Some(v) => {
                assert(str_views(v@) =~= enum_table(plugin@, k@).unwrap());
            },
            None => {},
        }
    }
    r
}

} // verus!
