[package]
name = "rewind"
version = "0.1.0"
edition = "2021"
publish = false

[dependencies]
anyhow = "=1.0.104"
clap = { version = "=4.6.7", features = ["derive"] }
colored = "=3.1.1"
directories = "=6.0.0"
dunce = "=1.0.5"
git2 = { version = "=0.21.0", default-features = false }
indicatif = "=0.18.6"
reqwest = { version = "=0.12.28", default-features = false, features = ["json", "rustls-tls"] }
rpassword = "=7.5.4"
self_update = { version = "=1.3.3", default-features = false, features = ["ureq", "rustls", "github", "archive-tar", "compression-tar-gz", "progress-bar"] }
serde = { version = "=1.0.229", features = ["derive"] }
serde_json = "=1.0.154"
tokio = { version = "=1.54.1", features = ["macros", "rt-multi-thread", "time"] }
