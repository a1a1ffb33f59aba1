[package]
name = "rs-unicorn"
version = "0.1.0"
edition = "2021"
publish = false

[dependencies]
rand = { version = "0.8", default-features = false, features = ["small_rng"] }
embedded-graphics = "0.8"
fugit = "0.3"
rp-pico = "0.9"
pio = "0.2"
pio-proc = "0.2"
