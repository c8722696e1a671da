[package]
name = "assert_json"
version = "0.1.0"
edition = "2021"
publish = false

[dependencies]
codespan-reporting = "0.11"
serde_json = "1"
