[package]
name = "vm_devices"
version = "0.1.0"
edition = "2021"
publish = false

[dependencies]
anyhow = "1"
async-trait = "0.1"
crc32c = "0.6"
event-listener = "5"
futures = "0.3"
libc = "0.2"
parking_lot = "0.12"
socket2 = "0.5"
thiserror = "2"
tracing = "0.1"
unicycle = "0.10"
