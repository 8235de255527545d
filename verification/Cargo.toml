[package]
name = "tama"
version = "0.1.0"
edition = "2021"
publish = false

[dependencies]
image = { version = "0.25", default-features = false, features = ["png"] }
embassy-time = { version = "*", features = ["std"] }
embedded-graphics = "0.8"
embedded-hal = "1"
embedded-hal-bus = "*"
mipidsi = "*"
embassy-executor = "*"
embassy-futures = "*"
embassy-nrf = "*"
embassy-sync = "*"
defmt = "*"
defmt-rtt = "*"
panic-probe = "*"
static_cell = "*"
