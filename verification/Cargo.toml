[package]
name = "vknp"
version = "0.1.0"
edition = "2021"
publish = false

[dependencies]
anyhow = "1"
bytemuck = { version = "1", features = ["derive", "extern_crate_alloc"] }
parking_lot = "0.12"
wgpu = "26"
