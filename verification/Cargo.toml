[package]
name = "serialport_detect"
version = "0.1.0"
edition = "2021"
publish = false

[dependencies]
crossbeam = "*"
unescaper = "*"
futures = "*"
udev = "*"
mio = { version = "*", features = ["os-ext", "os-poll"] }
nix = { version = "*", features = ["event"] }
parking_lot = "*"
