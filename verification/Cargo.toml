[package]
name = "jsonschema-luau"
version = "0.1.0"
edition = "2021"
publish = false

[dependencies]
clap = { version = "4", features = ["derive"] }
convert_case = "*"
serde = { version = "1", features = ["derive"] }
serde_json = "1"
thiserror = "2"
