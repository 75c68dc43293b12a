[package]
name = "repair_json"
version = "0.1.0"
edition = "2021"
publish = false

[dependencies]
serde = "1"
serde_json = "1"
aws-smithy-json = "*"
