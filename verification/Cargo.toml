[package]
name = "gauth"
version = "0.1.0"
edition = "2021"
publish = false

[dependencies]
anyhow = "1"
bodyparser = "*"
chrono = "0.4"
clap = { version = "=3.2.25", features = ["derive"] }
configparser = "*"
google-authenticator = { version = "=0.4.2", features = ["with-qrcode"] }
iron = "*"
json = "*"
log = "0.4"
postgres = "*"
rand = "=0.8.8"
router = "*"
