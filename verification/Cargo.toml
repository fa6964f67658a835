[package]
name = "omp_config"
version = "0.1.0"
edition = "2021"
publish = false

[dependencies]
futures = "=0.3.34"
indexmap = { version = "=2.14.2", features = ["serde"] }
json5 = "=0.4.1"
log = "=0.4.35"
# The parser under json5. From 2.9 on it gives up by the native stack that is
# left, so that what json5 reads would no longer depend on the text alone.
pest = "=2.8.8"
serde = { version = "=1.0.229", features = ["derive"] }
serde_json = { version = "=1.0.154", features = ["preserve_order"] }
serde_yaml = "=0.9.34"
sha2 = "=0.10.9"
