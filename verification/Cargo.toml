[package]
name = "irctweets"
version = "0.1.0"
edition = "2021"
publish = false

[dependencies]
linkify = "=0.11.0"
url = "=2.5.8"
anyhow = "*"
rusqlite = { version = "=0.40.2", features = ["bundled"] }
toml = "*"
serde = { version = "*", features = ["derive"] }
tokio = { version = "=1.53.2", features = ["rt-multi-thread", "macros", "time"] }
irc = { version = "=1.1.0", default-features = false, features = ["ctcp", "toml_config"] }
egg-mode = { version = "=0.16.1", default-features = false, features = ["rustls"] }
futures-util = "*"
tracing = "*"
tracing-subscriber = "*"
