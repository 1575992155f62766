[package]
name = "promptconv"
version = "0.1.3"
edition = "2021"
publish = false

[dependencies]
structopt = "0.3"
