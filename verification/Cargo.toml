[package]
name = "callchain"
version = "0.1.0"
edition = "2021"
publish = false

[dependencies]
regex = "1"
structopt = "0.3"
anyhow = "1"

[dev-dependencies]
itertools = "0.10"
