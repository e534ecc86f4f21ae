[package]
name = "order_pipeline"
version = "0.1.0"
edition = "2021"
publish = false

[dependencies]
alloy-primitives = "=1.7.3"
alloy-signer = "=2.5.0"
alloy-signer-local = "=2.5.0"
ecdsa = "=0.16.9"
k256 = "=0.13.4"
serde = "=1.0.229"
serde_json = "=1.0.151"
reqwest = { version = "=0.12.28", default-features = false, features = ["rustls-tls"] }
tokio = { version = "=1.53.2", features = ["rt-multi-thread", "macros", "time"] }

[dev-dependencies]
rmp-serde = "=1.3.1"
