[package]
name = "state_proxy"
version = "0.1.0"
edition = "2021"
publish = false

[dependencies]
anyhow = "1"
async-trait = "0.1"
bytes = "1"
clap = "3.2"
futures = "0.3"
http = "1"
hyper = { version = "0.14", features = ["client", "http1", "tcp"] }
hyper-tls = "0.5"
k8s-openapi = { version = "0.22", default-features = false, features = ["v1_30"] }
kube = { version = "0.93", default-features = false, features = ["client", "runtime", "openssl-tls"] }
lazy_static = "1"
maplit = "1"
metered = "0.9"
serde = "1"
serde_derive = "1"
serde_json = "1"
strum = "0.24"
strum_macros = "0.24"
thiserror = "1"
tokio = { version = "1", features = ["full"] }
tracing = "0.1"
tracing-subscriber = "0.3"
tuple-transpose = "*"
