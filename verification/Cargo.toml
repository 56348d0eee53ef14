[package]
name = "ringcore"
version = "0.1.0"
edition = "2021"
publish = false

[dependencies]
bit_field = "=0.10.3"
bitfield = "=0.13.2"
crossbeam-queue = "=0.3.14"
futures-util = "=0.3.34"
os_units = "=0.4.2"
spinning_top = "=0.3.0"
x86_64 = { version = "=0.14.13", default-features = false, features = ["instructions"] }
