[package]
name = "rustychip"
version = "0.1.0"
edition = "2021"
publish = false

[dependencies]
rand = "0.8"
thiserror = "1.0"
clap = { version = "4", features = ["derive"] }
sdl2 = "0.35"
