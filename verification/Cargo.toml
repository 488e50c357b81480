[package]
name = "passman_cli"
version = "0.1.0"
edition = "2021"
publish = false

[dependencies]
argon2 = "*"
chacha20poly1305 = "*"
chrono = "*"
clap = { version = "*", features = ["derive"] }
dirs = "*"
rand = "*"
ring = "*"
rpassword = "*"
rusqlite = { version = "*", features = ["bundled"] }
serde = { version = "*", features = ["derive"] }
toml = "*"
uuid = { version = "*", features = ["v4"] }
zeroize = "*"

[dev-dependencies]
tempfile = "*"
