[package]
name = "battleship"
version = "0.1.0"
edition = "2021"
publish = false

[dependencies]
cursive = { version = "0.21", default-features = false, features = ["crossterm-backend"] }
