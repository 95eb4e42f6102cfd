[package]
name = "zink"
version = "0.1.0"
edition = "2021"
publish = false

[dependencies]
tiny-keccak = { version = "2.0", features = ["keccak"] }
heck = "0.5"
convert_case = "0.6"
serde = { version = "1", features = ["derive"] }
serde_json = "1"
syn = { version = "2", features = ["full"] }
quote = "1"
proc-macro2 = "1"
tracing-subscriber = { version = "0.3", features = ["env-filter"] }

[dev-dependencies]
hex = "0.4"
