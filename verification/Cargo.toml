[package]
name = "darkshell"
version = "0.1.0"
edition = "2021"
publish = false

[dependencies]
serde = { version = "=1.0.229", features = ["derive"] }
serde_json = "=1.0.154"
serde_yaml = "=0.9.34"
glob = "=0.3.4"
regex = "=1.13.1"
sha2 = "=0.10.9"
chrono = { version = "=0.4.45", default-features = false, features = ["clock", "std", "serde"] }
uuid = { version = "=1.29.0", features = ["v4"] }
thiserror = "=2.0.21"
tokio = { version = "=1.54.1", features = ["rt", "macros", "sync", "time", "process", "io-util", "net"] }
tracing = "=0.1.44"
hyper = { version = "1", features = ["server", "http1"] }
hyper-util = { version = "0.1", features = ["tokio"] }
http-body-util = "0.1"
bytes = "1"
nix = { version = "*", features = ["signal", "process"] }
indicatif = "*"
