[package]
name = "fuusak"
version = "0.1.0"
edition = "2021"
publish = false

[dependencies]
regex = "1"
pest = "2"
serde = { version = "1", features = ["derive"] }
toml = "0.8"
clap = "2"
tempfile = "3"
walkdir = "2"
ignore = "0.4"
colorful = "*"
diff = "0.1"
notify-debouncer-full = "*"
rand = "0.9"
