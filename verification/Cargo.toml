[package]
name = "pingora_gateway"
version = "0.1.0"
edition = "2021"
publish = false

[dependencies]
wildcard = "=0.3.0"
regex = "=1.13.1"
serde = { version = "=1.0.229", features = ["derive"] }
serde_json = "=1.0.154"
serde_yaml = "=0.9.34"
anyhow = "=1.0.104"
clap = { version = "=4.6.7", features = ["derive"] }
tokio = { version = "=1.54.1", features = ["full"] }
tracing = "=0.1.44"
tracing-subscriber = "=0.3.23"
futures = "=0.3.34"
async-trait = "=0.1.92"
http = "=1.5.0"
kube = { version = "=4.2.0", features = ["runtime", "client", "derive"] }
k8s-openapi = { version = "=0.28.0", features = ["latest"] }
gateway-api = "=0.22.0"
pingora = { version = "=0.9.1", default-features = false, features = ["proxy", "lb"] }
