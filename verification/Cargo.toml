[package]
name = "jupyter2llm"
version = "0.1.0"
edition = "2021"
publish = false

[dependencies]
serde_json = "1"
clap = "4"
