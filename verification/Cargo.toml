[package]
name = "starfarer"
version = "0.1.0"
edition = "2021"
publish = false

[dependencies]
num = "=0.4.3"
byteorder = "=1.5.0"
fontdue = "=0.7.3"
image = { version = "=0.24.9", default-features = false, features = ["png"] }
ash = "=0.37.3"
winit = "=0.28.7"
cgmath = "=0.18.0"
noise = "=0.7.0"
rustc-hash = "1"
