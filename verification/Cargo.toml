[package]
name = "imap_next"
version = "0.1.0"
edition = "2021"
publish = false

[dependencies]
imap-types = { version = "=2.0.0-alpha.8", features = ["ext_id", "starttls"] }
imap-codec = { version = "=2.0.0-alpha.10", features = ["ext_id", "starttls", "quirk_crlf_relaxed"] }
rand = "=0.8.8"
serde = { version = "=1.0.229", features = ["derive"] }
toml = "=0.8.23"
thiserror = "=1.0.69"
futures-io = "=0.3.34"
rustls-pemfile = "=2.2.0"
