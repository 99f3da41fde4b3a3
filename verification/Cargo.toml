[package]
name = "thclaws_core"
version = "0.1.0"
edition = "2021"
publish = false

[dependencies]
async-trait = "0.1"
axum = "0.8"
boa_engine = "*"
serde_json = "1"
tokio = { version = "1", features = ["rt", "rt-multi-thread", "sync", "net", "macros", "time", "fs"] }
