[package]
name = "micromusic"
version = "0.1.0"
edition = "2021"
publish = false

[dependencies]
queues = "*"
rand = "*"
hex = "*"
data-encoding = "*"
regex = "*"
serde = { version = "*", features = ["derive"] }
osascript = "*"
image = "*"
directories = "*"
rust-embed = "*"
sdl2 = { version = "*", features = ["image"] }
sdl2-unifont = "*"
