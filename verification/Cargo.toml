[package]
name = "thin_las"
version = "2.1.0"
edition = "2021"
publish = false

[dependencies]
anyhow = "=1.0.104"
e57 = "=0.11.13"
eframe = { version = "=0.33.3", default-features = false, features = ["default_fonts", "glow", "x11"] }
las = { version = "=0.9.11", features = ["laz"] }
rfd = { version = "=0.15.4", default-features = false, features = ["xdg-portal", "tokio"] }
roaring = "=0.10.12"
seahash = "=4.1.0"
uuid = { version = "=1.29.0", features = ["v4"] }
