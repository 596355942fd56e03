[package]
name = "tirc"
version = "0.1.0"
edition = "2021"
publish = false

[dependencies]
anyhow = "=1.0.104"
chrono = "=0.4.45"
crossterm = "=0.29.0"
futures = "=0.3.34"
irc = { version = "=1.1.0", default-features = false, features = ["ctcp", "channel-lists"] }
mlua = { version = "=0.12.2", features = ["lua54", "vendored", "serialize"] }
ratatui = "=0.30.2"
semver = "=1.0.28"
serde = { version = "=1.0.229", features = ["derive"] }
tokio = { version = "=1.53.2", features = ["macros", "rt-multi-thread", "sync", "time"] }
tui-input = "=0.15.5"
xdg = "=3.0.0"
