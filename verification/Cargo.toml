[package]
name = "chip8"
version = "0.1.0"
edition = "2021"
publish = false

[dependencies]
getrandom = "0.2"
oorandom = "11"
log = "0.4"
env_logger = "0.9"
clap = { version = "3.2", features = ["cargo"] }
sdl2 = "0.35"
