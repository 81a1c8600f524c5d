[package]
name = "pmbus"
version = "0.1.0"
edition = "2021"
publish = false

[dependencies]
embedded-hal-async = "=1.0.0"
heapless = "=0.8.0"
smbus-adapter = "=0.1.1"
