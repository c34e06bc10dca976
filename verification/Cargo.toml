[package]
name = "syncr"
version = "0.1.0"
edition = "2021"
publish = false

[dependencies]
anyhow = "1"
clap = { version = "4", default-features = false, features = ["std", "derive", "help", "usage", "error-context"] }
dirs = "6"
fast_rsync = "0.2"
notify = { version = "8", default-features = false }
rand = "0.9"
sled = "0.34"
thiserror = "2"
tokio = { version = "1", default-features = false, features = ["rt-multi-thread", "macros", "fs", "io-util", "sync", "time"] }
tracing = "0.1"
tracing-subscriber = { version = "0.3", default-features = false, features = ["env-filter", "fmt", "std", "registry"] }

[dev-dependencies]
postcard = { version = "1", default-features = false, features = ["use-std"] }
