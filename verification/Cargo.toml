[package]
name = "orbitbuild"
version = "0.1.0"
edition = "2021"
publish = false

[dependencies]
anyhow = "=1.0.104"
bytes = "=1.12.1"
chrono = { version = "=0.4.45", default-features = false, features = ["std", "alloc"] }
clap = { version = "=4.6.7", default-features = false, features = ["std", "derive", "env", "help", "usage", "error-context"] }
data-encoding = "=2.11.1"
futures-lite = "=2.6.1"
iroh = { version = "=1.4.1", default-features = false, features = ["tls-ring"] }
postcard = { version = "=1.1.3", default-features = false, features = ["use-std"] }
rand = "=0.10.3"
serde = { version = "=1.0.229", features = ["derive"] }
serde_json = "=1.0.154"
tokio = { version = "=1.54.1", features = ["fs", "io-util", "macros", "net", "rt-multi-thread", "signal", "sync", "time"] }
tracing = "=0.1.44"
tracing-subscriber = { version = "=0.3.23", default-features = false, features = ["env-filter", "fmt"] }
