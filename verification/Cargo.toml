[package]
name = "rust_engine"
version = "0.1.0"
edition = "2021"
publish = false

[dependencies]
ash = "0.37"
nalgebra = "0.33"
thiserror = "1"
log = "0.4"
bytemuck = "1"

[dev-dependencies]
nalgebra = "0.33"
