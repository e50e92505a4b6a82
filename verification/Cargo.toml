[package]
name = "mkw_distro_tool"
version = "0.1.0"
edition = "2021"
publish = false

[dependencies]
base64 = "=0.13.1"
zstd = "=0.12.4"
image = { version = "=0.24.9", default-features = false, features = ["png", "jpeg", "gif", "bmp"] }
eframe = "=0.19.0"
egui = "=0.19.0"
egui_extras = { version = "=0.19.0", features = ["image"] }
rfd = { version = "0.14", default-features = false, features = ["xdg-portal", "tokio"] }
