[package]
name = "autherium"
version = "0.1.0"
edition = "2021"
publish = false

[dependencies]
rand = "0.9"
serde = { version = "1", features = ["derive"] }
serde_derive = "1"
serde_json = "1"
actix-web = "4"
reqwest = { version = "0.12", default-features = false, features = ["blocking", "json"] }
machineid-rs = "1"
