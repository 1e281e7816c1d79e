[package]
name = "interface_lib"
version = "0.1.0"
edition = "2021"
publish = false

[dependencies]
serde = { version = "=1.0.229", features = ["derive"] }
serde_json = "=1.0.154"
quick-xml = { version = "=0.37.5", features = ["serialize"] }
sha1 = "=0.10.7"
sha2 = "=0.10.9"
hex = "=0.4.3"
uuid = { version = "=1.29.0", features = ["v4"] }
chrono = "=0.4.45"
thiserror = "=1.0.69"
dirs = "=5.0.1"
zip = { version = "=2.6.1", default-features = false, features = ["deflate"] }
tokio = { version = "=1.54.1", features = ["fs", "rt", "process", "time", "sync", "macros"] }
reqwest = { version = "=0.12.28", default-features = false, features = ["json", "rustls-tls"] }
futures = "=0.3.34"
tracing = "=0.1.44"
async-trait = "=0.1.92"
sysinfo = "*"
