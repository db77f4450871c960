[package]
name = "notewave"
version = "0.1.0"
edition = "2021"
publish = false

[dependencies]
hound = "*"
midir = "*"
libpulse-binding = "*"
rustfft = "*"
