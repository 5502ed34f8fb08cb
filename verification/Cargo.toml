[package]
name = "kubemc"
version = "0.1.0"
edition = "2021"
publish = false

[dependencies]
anyhow = "*"
chrono = "=0.4.45"
clap = { version = "*", features = ["derive"] }
dirs = "*"
futures = "*"
k8s-openapi = { version = "=0.27.1", features = ["latest"] }
kube = "=3.1.0"
serde = { version = "*", features = ["derive"] }
serde_json = "=1.0.151"
serde_yaml = "*"
tabled = "*"
tokio = { version = "*", features = ["macros", "rt-multi-thread"] }
tokio-rustls = "*"
tracing = "*"
tracing-subscriber = "*"
