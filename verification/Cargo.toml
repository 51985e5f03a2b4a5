[package]
name = "install_tools_tui"
version = "0.1.0"
edition = "2021"
publish = false

[dependencies]
crossterm = "*"
ratatui = "*"
which = "*"

[dependencies.reqwest]
version = "*"
default-features = false
features = ["blocking", "rustls-tls"]
