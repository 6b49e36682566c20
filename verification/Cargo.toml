[package]
name = "richter"
version = "0.1.0"
edition = "2021"
publish = false

[dependencies]
fxhash = "=0.2.1"
im = "=15.1.0"
imstr = "=0.2.0"
serde-lexpr = "0.1"
serde = { version = "1", features = ["derive"] }
chrono = { version = "0.4", default-features = false, features = ["std"] }
