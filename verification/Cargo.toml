[package]
name = "locho"
version = "1.1.0"
edition = "2021"
publish = false

[dependencies]
anyhow = "1"
bytes = "1"
clap = { version = "4", default-features = false, features = ["derive", "error-context", "help", "std", "usage"] }
fs2 = "0.4"
futures-core = "0.3"
futures-util = { version = "0.3", default-features = false, features = ["std"] }
hex = "0.4"
http = "1"
http-body-util = "0.1"
hyper = { version = "1", features = ["http1", "server"] }
hyper-util = { version = "0.1", features = ["tokio"] }
iroh = { version = "=1.0.3", default-features = false, features = ["tls-ring"] }
rand = "0.9"
reqwest = { version = "0.13", default-features = false, features = ["rustls-no-provider", "stream"] }
serde = { version = "1", features = ["derive"] }
serde_json = "1"
sha2 = "0.11"
subtle = "2"
tokio = { version = "1", features = ["fs", "io-util", "macros", "net", "rt-multi-thread", "signal", "sync", "time"] }
tokio-util = "0.7"
toml = { version = "0.8", default-features = false, features = ["parse"] }
tracing = "0.1"
tracing-subscriber = { version = "0.3", default-features = false, features = ["env-filter", "fmt", "std"] }
url = "2"
