[package]
name = "ansible_operator"
version = "0.1.0"
edition = "2021"
publish = false

[dependencies]
base64 = "=0.23.1"
chrono = "=0.4.45"
chrono-tz = "*"
clap = { version = "=4.6.7", features = ["derive"] }
croner = "*"
flate2 = "=1.1.10"
futures = "=0.3.34"
futures-util = "=0.3.34"
k8s-openapi = { version = "=0.29.0", features = ["latest"] }
kube = { version = "=5.0.0", default-features = false, features = ["client", "runtime", "derive", "rustls-tls", "ring"] }
schemars = "=1.2.3"
serde = { version = "=1.0.229", features = ["derive"] }
serde_json = "=1.0.154"
serde_yaml = "=0.9.34"
ssh-key = { version = "=0.6.7", features = ["ed25519", "getrandom"] }
tokio = { version = "=1.54.1", features = ["macros", "rt-multi-thread", "time"] }
tracing = "=0.1.44"
tracing-subscriber = { version = "=0.3.23", features = ["env-filter"] }
twox-hash = "=2.1.5"
