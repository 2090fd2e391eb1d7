//! Verified core of a VPN connection manager for NetworkManager: the connection
//! model, the text formats it reads and writes, and the applet's decisions.
pub mod text;
pub mod model;
pub mod enums;
pub mod vpn_auth;
pub mod backend;
pub mod nm;
pub mod applet;
pub mod editor;
pub mod detail;
pub mod laws;
