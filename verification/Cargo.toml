[package]
name = "playlist_sync"
version = "0.1.0"
edition = "2021"
publish = false

[dependencies]
clap = { version = "=4.6.7", features = ["derive"] }
lofty = "=0.22.4"
mime2ext = "=0.1.54"
pathdiff = "=0.2.3"
reqwest = { version = "=0.12.28", default-features = false, features = ["rustls-tls"] }
rusqlite = { version = "=0.41.1", features = ["bundled"] }
thiserror = "=2.0.21"
tokio = { version = "=1.54.1", features = ["fs", "macros", "rt-multi-thread", "io-util"] }
tracing = "=0.1.44"
tracing-subscriber = "=0.3.23"
