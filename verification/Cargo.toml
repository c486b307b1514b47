[package]
name = "cloudsecrets"
version = "0.1.0"
edition = "2021"
publish = false

[dependencies]
regex = "=1.13.1"
serde = { version = "1", features = ["derive"] }
serde_json = "1"
serde_yaml = "0.9"
schemars = "=1.2.2"
kube = { version = "=4.2.0", default-features = false, features = ["derive"] }
k8s-openapi = { version = "=0.28.0", features = ["latest", "schemars"] }
tokio = { version = "1", features = ["macros", "rt-multi-thread", "net"] }
axum = "*"
