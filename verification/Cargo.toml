[package]
name = "kernel"
version = "0.1.0"
edition = "2021"
publish = false

[dependencies]
x86_64 = { version = "0.15", default-features = false, features = ["instructions"] }
bootloader_api = "0.11"
lazy_static = { version = "1", features = ["spin_no_std"] }
spin = "0.9"
uart_16550 = "0.3"
bitflags = "2"
