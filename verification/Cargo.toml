[package]
name = "timez_core"
version = "0.1.0"
edition = "2021"
publish = false

[dependencies]
chrono = "0.4"
ureq = { version = "2", features = ["json"] }
serde = { version = "1", features = ["derive"] }
serde_json = "1"
open = "5"
dbus = { version = "0.9", features = ["vendored"] }
