[package]
name = "ravenbar"
version = "0.1.0"
edition = "2021"
publish = false

[dependencies]
run_script = "*"
sysinfo = "*"
dirs = "*"
alsa = "*"
serde_yaml = "*"
x11rb = { version = "*", features = ["allow-unsafe-code"] }
cairo-rs = { version = "*", default-features = false, features = ["xcb", "freetype"] }
cairo-sys-rs = "*"
freetype-rs = "*"
fontconfig = "*"
unicode-normalization = "*"
