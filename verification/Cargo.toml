[package]
name = "gazer"
version = "0.1.0"
edition = "2021"
publish = false

[dependencies]
semver = "=1.0.28"
base64 = "=0.23.1"
kube = { version = "=3.1.0", features = ["runtime", "derive"] }
k8s-openapi = { version = "=0.27.1", features = ["latest"] }
git2 = { version = "=0.21.0", default-features = false }
clap = "=4.6.7"
serde = { version = "*", features = ["derive"] }
serde_json = "*"
serde_yaml = "*"
schemars = "*"
thiserror = "*"
tokio = { version = "*", features = ["macros", "rt-multi-thread", "time"] }
futures = "*"
tracing = "*"
tracing-subscriber = { version = "*", features = ["env-filter", "json"] }
