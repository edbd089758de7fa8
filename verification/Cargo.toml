[package]
name = "rustvault"
version = "0.1.0"
edition = "2021"
publish = false

[dependencies]
aes-gcm = "*"
argon2 = "*"
rand = "*"
anyhow = "*"
clap = { version = "*", features = ["derive"] }
dirs = "*"
rpassword = "*"
rusqlite = { version = "*", features = ["bundled"] }
