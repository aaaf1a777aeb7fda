[package]
name = "agent_forward"
version = "0.1.0"
edition = "2021"
publish = false

[dependencies]
chrono = "0.4"
libc = "0.2"
log = "0.4"
parking_lot = "0.12"
smol = "2"
