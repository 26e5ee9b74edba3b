[package]
name = "plc_diff"
version = "0.1.0"
edition = "2021"
publish = false

[dependencies]
anyhow = "1"
arrayvec = "0.7"
itertools = "0.10"
quick-xml = "0.22"
