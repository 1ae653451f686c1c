[package]
name = "graphql_jddf"
version = "0.1.0"
edition = "2021"
publish = false

[dependencies]
serde_json = "*"
jddf = "*"
