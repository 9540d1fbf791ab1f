[package]
name = "moodle_cli"
version = "0.1.0"
edition = "2021"
publish = false

[dependencies]
regex = "1"
scraper = "*"
url = "2"
totp-rs = { version = "5", features = ["otpauth"] }
reqwest = { version = "0.12", default-features = false, features = ["blocking", "cookies", "multipart", "rustls-tls"] }
rpassword = "7"
