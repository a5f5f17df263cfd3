[package]
name = "rats"
version = "0.1.0"
edition = "2021"
publish = false

[dependencies]
clap = { version = "=4.6.7", features = ["derive"] }
knossos = "=1.2.0"
rand = "=0.8.8"
sdl2 = { version = "=0.35.2", features = ["mixer"] }
thiserror = "=1.0.69"
