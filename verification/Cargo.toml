[package]
name = "bybit_stream"
version = "0.1.0"
edition = "2021"
publish = false

[dependencies]
base64 = "0.22"
bigdecimal = { version = "0.4", features = ["serde"] }
chrono = { version = "0.4", features = ["serde"] }
colored = "2"
config = "0.13"
dashmap = "5"
diesel = { version = "2", features = ["postgres", "r2d2", "chrono", "numeric"] }
dotenv = "0.15"
env_logger = "0.10"
futures-util = "0.3"
log = "0.4"
openssl = "0.10"
rand = "0.8"
serde = { version = "1", features = ["derive"] }
serde_json = "1"
tokio = { version = "1", features = ["full"] }
tokio-tungstenite = { version = "0.21", features = ["native-tls"] }
tungstenite = "0.21"
url = "2"
uuid = { version = "1", features = ["v4"] }
