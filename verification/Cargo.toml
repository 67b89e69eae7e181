[package]
name = "dark_sorter"
version = "0.1.0"
edition = "2021"
publish = false

[dependencies]
itertools = "0.14"
flate2 = "1"
tokio = { version = "1", features = ["rt-multi-thread", "macros", "fs", "process", "sync", "time", "io-util"] }
futures = "0.3"
futures-concurrency = "7"
tokio-stream = { version = "0.1", features = ["fs"] }
tokio-retry = "0.3"
clap = { version = "4", features = ["derive"] }
color-eyre = "0.6"
tracing = "0.1"
tracing-subscriber = { version = "0.3", features = ["env-filter"] }
tracing-error = "0.2"
reqwest = { version = "0.12", default-features = false, features = ["json", "rustls-tls"] }
serde = { version = "1", features = ["derive"] }
serde_json = "1"
postcard = { version = "1", features = ["use-std"] }
caps = "0.5"
uzers = "0.12"
dirs = "6"
rlimit = "0.10"
fanotify-fid = "*"
libc = "0.2"
spin = "0.9"
thiserror = "2"
tempfile = "3"
