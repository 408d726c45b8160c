[package]
name = "mpvcast"
version = "0.1.0"
edition = "2021"
publish = false

[dependencies]
prost = "0.13"
url = "2"
anyhow = "1"
async-std = { version = "1", features = ["attributes"] }
clap = { version = "4", features = ["derive"] }
libmpv = "2"
walkdir = "2"
gtk4 = "0.9"
relm4 = "0.9"
mpris-server = "0.8"
