[package]
name = "rdesk"
version = "0.1.0"
edition = "2021"
publish = false

[dependencies]
anyhow = "1"
async-trait = "0.1"
ironrdp-dvc = "=0.8.0"
ironrdp-egfx = { version = "=0.3.0", default-features = false }
ironrdp-graphics = "=0.9.0"
ironrdp-server = { version = "=0.13.0", default-features = false, features = ["egfx", "helper"] }
ironrdp-svc = "=0.8.0"
libc = "0.2"
sha2 = "=0.10.9"
snow = "=0.9.6"
tokio = { version = "1", default-features = false, features = ["macros", "net", "rt", "sync", "time"] }
tracing = "0.1"
tracing-subscriber = { version = "0.3", features = ["env-filter"] }
x11rb = { version = "0.13", features = ["shm", "xfixes", "xtest"] }
