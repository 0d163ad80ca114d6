[package]
name = "jumphost"
version = "0.2.0"
edition = "2021"
publish = false

[dependencies]
anyhow = "1"
bytes = "1"
chromiumoxide = "=0.9.1"
clap = { version = "4", features = ["derive"] }
clap_complete = "4"
dbus-secret-service-keyring-store = { version = "=1.0.1", features = ["crypto-rust", "vendored"] }
directories = "*"
dotenvy = "0.15"
futures-util = "0.3"
http-body-util = "0.1"
hyper = { version = "1", features = ["http1", "server"] }
hyper-util = { version = "0.1", features = ["tokio"] }
keyring-core = "=1.0.1"
nix = { version = "*", features = ["signal"] }
notify-rust = "4"
reqwest = { version = "=0.12.28", default-features = false, features = ["rustls-tls"] }
rpassword = "7"
serde = { version = "1", features = ["derive"] }
tokio = { version = "1", features = ["full"] }
tokio-util = "0.7"
toml = "0.8"
tracing = "0.1"
tracing-subscriber = { version = "0.3", features = ["env-filter", "chrono"] }
zbus = "5"
