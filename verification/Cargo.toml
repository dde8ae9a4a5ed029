[package]
name = "haproxy_spoa_rust"
version = "0.1.0"
edition = "2021"
publish = false

[dependencies]
bytes = "1"
log = "0.4"
opentelemetry = "0.17"
opentelemetry-jaeger = "0.16"
opentelemetry-semantic-conventions = "0.9"
pretty_env_logger = "0.4"
tokio = { version = "1", features = ["full"] }
