[package]
name = "ores-clis-core"
version = "0.1.0"
edition = "2021"
publish = false

[dependencies]
ctrlc = "3"
serde_json = "1"
signal-hook = "0.3"
