[package]
name = "e2e_test_framework"
version = "0.1.0"
edition = "2021"
publish = false

[dependencies]
anyhow = "1"
async-trait = "0.1"
axum = "0.6"
chrono = { version = "0.4", features = ["serde"] }
futures = "0.3"
governor = "*"
hex = "0.4"
log = "0.4"
prost-types = "0.13"
rand = "0.9"
rand_chacha = "0.9"
rand_distr = "0.5"
reqwest = { version = "0.12", default-features = false, features = ["json"] }
serde = { version = "1", features = ["derive"] }
serde_json = "1"
sha2 = "0.10"
thiserror = "1"
time = { version = "0.3", features = ["formatting", "parsing", "macros"] }
tokio = { version = "1", features = ["full"] }
tokio-stream = "0.1"
tonic = "0.12"
walkdir = "2"

[dev-dependencies]
tempfile = "3"
