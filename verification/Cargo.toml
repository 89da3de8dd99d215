[package]
name = "stapler"
version = "0.1.0"
edition = "2021"
publish = false

[dependencies]
anyhow = "1"
clap = "4"
glob = "0.3"
lopdf = "=0.46.0"
