[package]
name = "proxy_scanner"
version = "0.1.0"
edition = "2021"
publish = false

[dependencies]
chrono = "0.4"
deadpool-postgres = "0.14"
futures = "0.3"
ipnetwork = "=0.21.1"
maxminddb = "=0.32.0"
native-tls = "0.2"
serde_json = "=1.0.154"
tokio = { version = "1", features = ["full"] }
tokio-native-tls = "0.3"
tokio-postgres = { version = "=0.7.18", features = ["with-chrono-0_4"] }
