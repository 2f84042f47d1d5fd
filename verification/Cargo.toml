[package]
name = "sender"
version = "0.1.0"
edition = "2021"
publish = false

[dependencies]
anyhow = "1"
async-trait = "0.1"
chrono = "0.4"
dirs = "6"
grammers-client = { version = "*", default-features = false }
grammers-session = { version = "*", default-features = false, features = ["sqlite-storage"] }
grammers-tl-types = "*"
image = { version = "0.25", default-features = false, features = ["png", "jpeg"] }
opus-pure = "*"
qrcode = { version = "0.14", default-features = false }
ratatui = { version = "0.30", default-features = false, features = ["crossterm"] }
ratatui-textarea = "*"
rustix = { version = "1", features = ["stdio"] }
serde = { version = "1", features = ["derive"] }
serde_json = "1"
thiserror = "2"
tokio = { version = "1", features = ["full"] }
toml = "*"
tracing = "0.1"
tracing-log = "0.2"
tracing-subscriber = { version = "0.3", features = ["env-filter", "chrono"] }
whatsapp-rust = { version = "*", default-features = false }
