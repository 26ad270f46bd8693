[package]
name = "vertx_http_gateway_connector"
version = "0.1.0"
edition = "2021"
publish = false

[dependencies]
bytes = "1"
futures-channel = { version = "0.3", features = ["sink"] }
futures-util = { version = "0.3", features = ["sink"] }
log = "0.4"
reqwest = { version = "0.11", features = ["stream"] }
tokio = { version = "1", features = ["macros", "net", "rt", "rt-multi-thread", "sync", "time"] }
tokio-tungstenite = { version = "0.20", features = ["native-tls"] }
uuid = { version = "1", features = ["v4"] }
