[package]
name = "tracing_defmt"
version = "0.1.0"
edition = "2021"
publish = false

[dependencies]
defmt-decoder = "=1.2.0"
defmt = "=1.2.0"
tracing = "=0.1.44"
tracing-opentelemetry = "=0.34.0"
thiserror = "=2.0.21"
syn = { version = "=2.0.119", features = ["full"] }
quote = "=1.0.47"
proc-macro2 = "=1.0.107"

[dev-dependencies]
serde_json = "=1.0.154"
