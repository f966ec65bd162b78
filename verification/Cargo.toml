[package]
name = "layanow"
version = "0.1.0"
edition = "2021"
publish = false

[dependencies]
sha1 = "0.10"
sha2 = "0.10"
serde = { version = "1", features = ["derive"] }
serde_json = "1"
toml = "0.8"
thiserror = "2"
crossbeam-channel = "0.5"
interprocess = "2"
libc = "0.2"
tracing = "0.1"
tracing-subscriber = { version = "0.3", features = ["env-filter", "fmt"] }
ureq = "2"
wl-clipboard-rs = "0.9"
egui = "0.31"
ort = { version = "2.0.0-rc.10", default-features = false, features = ["load-dynamic"] }
tokenizers = { version = "0.21", default-features = false, features = ["onig"] }
