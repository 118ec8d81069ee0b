[package]
name = "libgm"
version = "0.1.0"
edition = "2021"
publish = false

[dependencies]
bimap = "0.6"
chrono = { version = "0.4", default-features = false, features = ["std", "clock"] }
uuid = "1"
image = { version = "0.25", default-features = false, features = ["png"] }
log = "0.4"
num_enum = "0.7"
serde = { version = "1", features = ["derive"] }
