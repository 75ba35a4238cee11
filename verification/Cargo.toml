[package]
name = "esp01"
version = "0.1.0"
edition = "2021"
publish = false

[dependencies]
itoa = "0.4"
arrayvec = "0.5"
embedded-hal = "0.2"
nb = "0.1"
