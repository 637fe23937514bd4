[package]
name = "rustpass"
version = "0.1.0"
edition = "2021"
publish = false

[dependencies]
aes-gcm = "0.10"
argon2 = "0.5"
base64 = "0.22"
sha2 = "0.10"
rand = "0.8"
interprocess = "1"
dirs = "5"
daemonize = "0.5"
rpassword = "7"
uuid = { version = "1", features = ["v4"] }
