[package]
name = "st7789v2_driver"
version = "0.1.0"
edition = "2021"
publish = false

[dependencies]
embedded-graphics = "0.8"
embedded-hal = "1.0"
