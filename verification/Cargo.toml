[package]
name = "web-transport"
version = "0.1.0"
edition = "2021"
publish = false

[dependencies]
bytes = "=1.12.1"
url = "=2.5.8"
http = "=1.5.0"
rustls-pki-types = { version = "=1.15.1", features = ["std"] }
rustls-pemfile = "=2.2.0"
thiserror = "=2.0.21"
tracing = "=0.1.44"
futures = "=0.3.34"
tokio = { version = "=1.54.1", features = ["io-util", "macros", "net", "rt", "sync", "time"] }
tokio-tungstenite = "=0.30.0"
rustls = { version = "=0.23.46", default-features = false, features = ["std"] }
tokio-rustls = { version = "=0.26.6", default-features = false }
quinn = { version = "=0.11.12", default-features = false, features = ["runtime-tokio"] }
noq = { version = "*", default-features = false, features = ["runtime-tokio"] }
iroh = { version = "*", default-features = false }
tokio-util = "*"
rustls-native-certs = "*"
