[package]
name = "opentelemetry_sink"
version = "0.1.0"
edition = "2021"
publish = false

[dependencies]
bytes = "=1.12.1"
chrono = { version = "=0.4.45", default-features = false, features = ["std"] }
futures-util = { version = "=0.3.34", default-features = false, features = ["std"] }
hex = "=0.4.3"
http = "=0.2.12"
hyper = { version = "=0.14.32", default-features = false, features = ["client", "http1", "tcp"] }
indexmap = { version = "=2.14.2", features = ["serde"] }
prost = "=0.12.6"
serde = { version = "=1.0.229", features = ["derive"] }
tokio = { version = "=1.54.1", default-features = false, features = ["time"] }
vrl = { version = "=0.26.0", default-features = false, features = ["value", "path"] }

[dev-dependencies]
opentelemetry-proto = { version = "=0.5.0", default-features = false, features = ["gen-tonic-messages", "logs", "metrics", "trace"] }
