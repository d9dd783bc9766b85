[package]
name = "stochastic_search"
version = "0.1.0"
edition = "2021"
publish = false

[dependencies]
rand = "0.9"
flume = { version = "0.11", default-features = false }
rayon = "1"
