[package]
name = "vpn_menu"
version = "0.1.0"
edition = "2021"
publish = false

[dependencies]
nmrs = "*"
zbus = "*"
tokio = { version = "*", features = ["full"] }
futures = "*"
i18n-embed = { version = "*", features = ["fluent-system", "desktop-requester"] }
