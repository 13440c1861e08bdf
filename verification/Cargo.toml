[package]
name = "icm20948"
version = "0.1.0"
edition = "2021"
publish = false

[dependencies]
device-driver = { version = "1.0", default-features = false }
embedded-hal = "1.0"
embedded-hal-async = "1.0"
heapless = "0.8"
libm = "0.2"
