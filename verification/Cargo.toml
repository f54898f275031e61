[package]
name = "ciboulette2postgres"
version = "0.1.0"
edition = "2021"
publish = false

[dependencies]
petgraph = { version = "0.5", default-features = false }
