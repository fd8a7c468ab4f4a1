[package]
name = "zscheme"
version = "0.1.0"
edition = "2021"
publish = false

[dependencies]
anyhow = "=1.0.104"
blake3 = "=1.8.7"
ciborium = "=0.2.2"
clap = { version = "=4.6.7", features = ["derive", "env"] }
directories = "=6.0.0"
futures = "=0.3.34"
getrandom = "=0.3.4"
ma-core = { version = "*", default-features = false }
ma-zscheme = "=0.7.0"
rustyline = "=19.0.0"
serde = { version = "=1.0.229", features = ["derive"] }
time = { version = "=0.3.55", features = ["formatting", "parsing"] }
tokio = { version = "=1.54.1", features = ["full"] }
tracing = "=0.1.44"
tracing-subscriber = { version = "=0.3.23", features = ["env-filter"] }
zeroize = "=1.9.1"
