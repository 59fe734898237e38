[package]
name = "tracing-stackdriver"
version = "0.1.0"
edition = "2021"
publish = false

[dependencies]
Inflector = { version = "0.11", default-features = false }
serde_json = "1"
time = { version = "0.3", default-features = false, features = ["formatting", "std"] }
tracing-core = "0.1"
tracing-subscriber = { version = "0.3", features = ["json"] }
opentelemetry = "0.21"
tracing-opentelemetry = "0.22"
