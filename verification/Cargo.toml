[package]
name = "zero2prod"
version = "0.1.0"
edition = "2021"
publish = false

[dependencies]
unicode-segmentation = "=1.13.3"
actix-web = "=4.15.0"
config = "=0.15.27"
secrecy = { version = "=0.10.3", features = ["serde"] }
serde = { version = "=1.0.229", features = ["derive"] }
tokio = { version = "=1.53.2", features = ["macros", "rt-multi-thread"] }
tracing = "=0.1.44"
tracing-bunyan-formatter = "=0.3.10"
tracing-log = "=0.2.0"
tracing-opentelemetry = "=0.34.0"
tracing-subscriber = { version = "=0.3.23", features = ["env-filter", "registry"] }
opentelemetry = "=0.33.0"
opentelemetry-otlp = { version = "=0.33.0", features = ["grpc-tonic"] }
opentelemetry_sdk = "=0.33.0"
opentelemetry-semantic-conventions = "=0.33.0"
