[package]
name = "mcwire"
version = "0.1.0"
edition = "2021"
publish = false

[dependencies]
bitflags = "2"
env_logger = "*"
log = "0.4"
parking_lot = { version = "0.12", features = ["arc_lock"] }
thiserror = "*"
