[package]
name = "uart_command"
version = "0.1.0"
edition = "2021"
publish = false

[dependencies]
nom = { version = "7.1", default-features = false }
