[package]
name = "ac_image_forensics"
version = "0.1.0"
edition = "2021"
publish = false

[dependencies]
image = { version = "=0.25.10", default-features = false, features = ["jpeg", "png"] }
imageproc = { version = "=0.27.0", default-features = false }
jpeg-encoder = "=0.7.1"
rayon = "=1.12.0"
ndarray = "=0.17.2"
chrono = "=0.4.45"
rfd = { version = "=0.17.2", default-features = false, features = ["xdg-portal"] }
arboard = "=3.7.0"
webbrowser = "=1.2.6"
libloading = "=0.8.9"
eframe = { version = "=0.37.0", default-features = false, features = ["default_fonts", "glow", "x11"] }
