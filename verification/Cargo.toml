[package]
name = "vocha"
version = "0.1.0"
edition = "2021"
publish = false

[dependencies]
serde = { version = "1", features = ["derive"] }
egui = "*"
uuid = { version = "1", features = ["v7"] }
sha2 = "*"
bytemuck = "*"
rodio = "*"
tracing = "*"
