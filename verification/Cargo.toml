[package]
name = "watchsync"
version = "0.1.0"
edition = "2021"
publish = false

[dependencies]
rust-ini = "*"
notify = "4"
ssh2 = "*"
serde_json = "*"
lettre = "0.9"
lettre_email = "0.9"
native-tls = "*"
