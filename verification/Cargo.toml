[package]
name = "long_term_memory"
version = "0.1.0"
edition = "2021"
publish = false

[dependencies]
async-openai = "0.10"
byteorder = "1.4"
nanoid = "0.4"
redis = { version = "0.22", features = ["tokio-comp", "connection-manager"] }
