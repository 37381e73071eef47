[package]
name = "eip-operator"
version = "0.4.0"
edition = "2021"
publish = false

[dependencies]
async-trait = "0.1"
aws-config = { version = "1", default-features = false, features = ["rt-tokio", "rustls"] }
aws-sdk-servicequotas = { version = "1", default-features = false, features = ["rt-tokio", "rustls"] }
futures = "0.3"
hyper = "1"
hyper-tls = "0.6"
hyper-util = { version = "0.1", features = ["client-legacy", "http1", "tokio"] }
iptables = "0.5"
json-patch = "1"
k8s-openapi = { version = "0.22", features = ["v1_29"] }
kube = { version = "0.91", default-features = false, features = ["client", "rustls-tls"] }
kube-runtime = "0.91"
native-tls = { version = "0.2", features = ["alpn"] }
netlink-packet-route = "0.17"
opentelemetry = "0.24"
opentelemetry-otlp = { version = "0.17", features = ["tonic"] }
opentelemetry_sdk = { version = "0.24", features = ["rt-tokio"] }
rand = "0.8"
rtnetlink = "0.13"
serde = { version = "1", features = ["derive"] }
serde_json = "1"
thiserror = "1"
tokio = { version = "1", features = ["macros", "rt-multi-thread", "time"] }
tokio-native-tls = "0.3"
tonic = "0.12"
tracing = "0.1"
tracing-opentelemetry = "0.25"
tracing-subscriber = { version = "0.3", features = ["env-filter", "json"] }
