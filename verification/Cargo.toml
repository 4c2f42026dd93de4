[package]
name = "ntrix_vdc"
version = "0.1.0"
edition = "2021"
publish = false

[dependencies]
ibm437 = "*"
bytemuck = { version = "1", features = ["derive"] }
