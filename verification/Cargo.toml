[package]
name = "xades"
version = "0.1.0"
edition = "2021"
publish = false

[dependencies]
base64 = "=0.22.1"
bergshamra-c14n = "=0.11.1"
bergshamra-core = "=0.11.1"
bergshamra-crypto = "=0.11.1"
bergshamra-keys = "=0.11.1"
bergshamra-xml = "=0.11.1"
chrono = "=0.4.45"
percent-encoding = "=2.3.2"
thiserror = "=2.0.21"
tokio = { version = "=1.54.1", features = ["rt"] }
tsp-ltv = "=0.6.0"
x509-cert = "=0.2.5"
