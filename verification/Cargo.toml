[package]
name = "abuelo"
version = "0.1.0"
edition = "2021"
publish = false

[dependencies]
chrono = "0.4"
log = "0.4"
rand = "0.8"
rocket = { version = "0.5", features = ["json"] }
rusqlite = { version = "*", features = ["chrono"] }
serde = { version = "1", features = ["derive"] }
sha2 = "0.10"
