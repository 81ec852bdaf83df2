[package]
name = "anotherworld"
version = "0.1.0"
edition = "2021"
publish = false

[dependencies]
byteorder = "1"
rand = "0.8"
log = "0.4"
pretty_env_logger = "0.5"
clap = { version = "4", features = ["derive"] }
sdl2 = "0.35"
timer = "0.2"
chrono = "0.4"
