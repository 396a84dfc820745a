[package]
name = "bytebox"
version = "0.1.0"
edition = "2021"
publish = false

[dependencies]
zilog_z80 = "*"
serde = { version = "1", features = ["derive"] }
toml = "*"
directories = "*"
crc32fast = "*"
zip = { version = "*", default-features = false, features = ["deflate"] }
ureq = "*"
sdl2 = "*"
image = { version = "*", default-features = false, features = ["png"] }
