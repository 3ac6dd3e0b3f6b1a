[package]
name = "kristforge"
version = "0.1.0"
edition = "2021"
publish = false

[dependencies]
hex = "=0.4.3"
sha2 = "=0.10.9"
ring = "=0.17.14"
crossbeam = "=0.8.5"
crossbeam-channel = "=0.5.17"
rand = "=0.8.8"
num_cpus = "=1.17.0"
raw-cpuid = "=11.6.0"
serde = { version = "=1.0.229", features = ["derive"] }
serde_json = "=1.0.154"
structopt = "=0.3.26"
reqwest = { version = "=0.11.27", default-features = false, features = ["blocking", "json", "rustls-tls"] }
tokio-tungstenite = { version = "=0.21.0", features = ["rustls-tls-webpki-roots"] }
url = "=2.5.8"
tokio = { version = "=1.54.1", features = ["rt", "net", "time", "sync"] }
futures-util = { version = "=0.3.34", features = ["sink"] }
