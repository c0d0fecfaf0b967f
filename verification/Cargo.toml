[package]
name = "games"
version = "0.1.0"
edition = "2021"
publish = false

[dependencies]
rand = "=0.3.23"
termion = "=4.0.6"
chrono = "=0.4.45"
libgo = "=0.5.0"
