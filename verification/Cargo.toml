[package]
name = "autotls"
version = "0.1.0"
edition = "2021"
publish = false

[dependencies]
anyhow = "1"
futures = "0.3"
k8s-openapi = { version = "0.14", features = ["v1_22"] }
kube = { version = "0.71", default-features = false, features = ["client", "runtime"] }
thiserror = "1"
tokio = { version = "1", features = ["macros", "rt-multi-thread"] }
tracing = "0.1"
tracing-subscriber = "0.3"
