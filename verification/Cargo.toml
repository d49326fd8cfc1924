[package]
name = "curi_os"
version = "0.1.0"
edition = "2021"
publish = false

[dependencies]
pc-keyboard = "=0.9.0"
font8x8 = "=0.3.1"
x86_64 = { version = "=0.15.5", default-features = false, features = ["instructions"] }
