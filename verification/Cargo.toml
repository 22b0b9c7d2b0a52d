[package]
name = "tsuzuri"
version = "0.1.0"
edition = "2021"
publish = false

[dependencies]
async-trait = "0.1"
proc-macro2 = "1"
quote = "1"
serde = { version = "1", features = ["derive"] }
serde_json = "1"
syn = { version = "2", features = ["full"] }
thiserror = "1"
time = "0.3"
tokio = { version = "1", features = ["sync", "rt", "macros"] }
