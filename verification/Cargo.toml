[package]
name = "ate"
version = "0.1.0"
edition = "2021"
publish = false

[dependencies]
google-authenticator = "*"
url = "*"
rpassword = "*"
