[package]
name = "iv"
version = "0.1.0"
edition = "2021"
publish = false

[dependencies]
libc = "0.2"
serde = { version = "1", features = ["derive"] }
toml = "0.8"
dirs = "*"
gtk4 = "*"
libadwaita = "*"
vte4 = "*"
