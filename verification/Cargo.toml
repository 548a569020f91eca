[package]
name = "one_wire_bus"
version = "0.1.0"
edition = "2021"
publish = false

[dependencies]
embassy-futures = "0.1"
embassy-time = "*"
embedded-hal = "1"
embedded-hal-async = "1"
