[package]
name = "rosco_console"
version = "0.1.0"
edition = "2021"
publish = false

[dependencies]
lazy_static = "=1.5.1"
pic8259 = "=0.10.4"
spin = "=0.12.3"
x86_64 = { version = "=0.14.13", default-features = false, features = ["instructions"] }
