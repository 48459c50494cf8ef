[package]
name = "localdesktop"
version = "0.1.0"
edition = "2021"
publish = false

[dependencies]
jni = "0.21"
log = "0.4"
reqwest = { version = "0.12", default-features = false, features = ["blocking", "rustls-tls"] }
smithay = { version = "0.7", default-features = false }
