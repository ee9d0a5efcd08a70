[package]
name = "improve"
version = "0.1.0"
edition = "2021"
publish = false

[dependencies]
clap = "2.33"
sdl2 = "0.32"
rustfft = "6"
