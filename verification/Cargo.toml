[package]
name = "simple_wallpaper"
version = "0.1.0"
edition = "2021"
publish = false

[dependencies]
rand = "=0.10.3"
uuid = { version = "=1.29.0", features = ["v4"] }
walkdir = "=2.5.0"
serde = { version = "=1.0.229", features = ["derive"] }
serde_json = "=1.0.154"
thiserror = "=2.0.21"
clap = { version = "=4.6.7", features = ["derive"] }
colored = "=3.1.1"
inquire = "=0.9.4"
libc = "=0.2.191"
tokio = { version = "=1.54.1", features = ["rt", "time"] }
image = { version = "=0.25.10", default-features = false, features = ["jpeg", "png", "webp", "bmp"] }
iced = { version = "0.13", default-features = false, features = ["tiny-skia", "tokio"] }
