[package]
name = "faber"
version = "0.1.0"
edition = "2021"
publish = false

[dependencies]
anyhow = "1"
futures = "0.3"
log = "0.4"
ropey = "1.6"
rust-i18n = "3"
serde_json = "1"
ureq = "3"
url = "2"
