[package]
name = "lonk"
version = "0.1.0"
edition = "2021"
publish = false

[dependencies]
url = "2"
qrcode = { version = "0.14", default-features = false, features = ["svg"] }
rand = "0.8"
serde = { version = "1", features = ["derive"] }
serde_json = "1"
toml = "0.8"
clap = { version = "4", features = ["derive"] }
ureq = { version = "2", features = ["json"] }
rusqlite = { version = "0.31", features = ["bundled"] }
rocket = { version = "0.5.1", features = ["json"] }
rust-embed = "8"

[dev-dependencies]
tempfile = "3"
