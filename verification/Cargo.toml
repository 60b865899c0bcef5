[package]
name = "poseidon"
version = "0.1.0"
edition = "2021"
publish = false

[dependencies]
anyhow = "=1.0.104"
async-trait = "=0.1.92"
axum = "=0.8.9"
base64 = "=0.22.1"
candle-core = { version = "=0.9.2", default-features = false }
candle-transformers = { version = "=0.9.2", default-features = false }
chrono = { version = "=0.4.45", default-features = false, features = ["clock", "serde", "std"] }
clap = { version = "=4.6.7", default-features = false, features = ["derive", "error-context", "help", "std", "usage"] }
directories = "=6.0.0"
futures = "=0.3.34"
hf-hub = { version = "=0.4.3", default-features = false, features = ["ureq"] }
html2md = "=0.2.14"
jsonwebtoken = "=9.3.1"
opentelemetry = "=0.27.1"
opentelemetry-appender-tracing = "=0.27.0"
opentelemetry-otlp = { version = "=0.27.0", default-features = false, features = ["http-proto", "logs", "metrics", "reqwest-client", "trace"] }
opentelemetry_sdk = { version = "=0.27.1", features = ["rt-tokio"] }
percent-encoding = "=2.3.2"
pulldown-cmark = { version = "=0.13.6", default-features = false, features = ["html"] }
reqwest = { version = "=0.12.28", default-features = false, features = ["blocking", "json"] }
serde = { version = "=1.0.229", features = ["derive"] }
serde_json = { version = "=1.0.154", features = ["raw_value"] }
thiserror = "=2.0.21"
tokenizers = { version = "=0.21.4", default-features = false, features = ["fancy-regex"] }
tokio = { version = "=1.54.1", features = ["full"] }
tower-http = { version = "=0.6.11", features = ["cors", "fs", "set-header", "trace"] }
tracing = "=0.1.44"
tracing-appender = "=0.2.5"
tracing-opentelemetry = { version = "=0.28.0", features = ["metrics"] }
tracing-subscriber = { version = "=0.3.23", default-features = false, features = ["ansi", "env-filter", "fmt", "json", "registry", "std", "tracing-log"] }
