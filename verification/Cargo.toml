[package]
name = "charm_source"
version = "0.1.0"
edition = "2021"
publish = false

[dependencies]
serde_yaml = "*"
zip = "*"
tempfile = "*"
ex = "*"
