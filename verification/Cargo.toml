[package]
name = "mpd_discord_rpc"
version = "0.1.0"
edition = "2021"
publish = false

[dependencies]
discord-presence = "*"
mpd_client = "*"
mpd-utils = "*"
reqwest = { version = "*", default-features = false, features = ["json", "rustls-tls"] }
serde = { version = "*", features = ["derive"] }
tokio = { version = "*", features = ["macros", "rt-multi-thread", "sync", "time"] }
tracing = "*"
tracing-subscriber = "*"
universal-config = "*"
