[package]
name = "echo_operator"
version = "0.1.0"
edition = "2021"
publish = false

[dependencies]
actix-web = { version = "4", default-features = false, features = ["macros"] }
anyhow = "1"
chrono = { version = "0.4", default-features = false, features = ["clock"] }
clap = { version = "4", features = ["derive", "env"] }
futures = "0.3"
http = "1"
hyper-util = "0.1"
k8s-openapi = { version = "0.23", features = ["latest"] }
kube = { version = "0.96", features = ["runtime", "client", "derive"] }
opentelemetry = "0.26"
opentelemetry-otlp = "0.26"
opentelemetry_sdk = { version = "0.26", features = ["rt-tokio"] }
prometheus-client = "0.22"
schemars = "0.8"
serde = { version = "1", features = ["derive"] }
serde_json = "1"
thiserror = "1"
tokio = { version = "1", features = ["macros", "rt-multi-thread", "time", "signal", "sync"] }
tower = "0.5"
tracing = "0.1"
tracing-opentelemetry = "0.27"
tracing-subscriber = { version = "0.3", features = ["json", "env-filter"] }
url-escape = "0.1"
