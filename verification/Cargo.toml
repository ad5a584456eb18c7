[package]
name = "nats_core"
version = "0.1.0"
edition = "2021"
publish = false

[dependencies]
serde_json = "=1.0.151"
tokio = { version = "=1.53.2", features = ["sync", "net", "time", "rt-multi-thread", "io-util"] }
url = "=2.5.8"
tokio-rustls = "=0.23.4"
rustls-pemfile = "=1.0.4"
webpki-roots = "=0.22.6"
nuid = "=0.6.0"
futures-util = "=0.3.34"
