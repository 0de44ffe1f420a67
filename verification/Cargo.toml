[package]
name = "mail_merge"
version = "0.1.0"
edition = "2021"
publish = false

[dependencies]
calamine = "0.22"
lettre = "0.11"
serde_json = "1"
