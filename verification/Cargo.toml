[package]
name = "egui_tester"
version = "0.1.0"
edition = "2021"
publish = false

[dependencies]
eframe = { version = "*", default-features = false, features = ["default_fonts", "glow", "x11"] }
font8x8 = "0.3"
libc = "0.2"
png = "*"
rustix = { version = "1", features = ["fs", "process", "time"] }
seccompiler = "*"
serde = { version = "1", features = ["derive"] }
serde_json = "1"
tempfile = "3"
thiserror = "2"
x11rb = { version = "*", features = ["image", "xfixes", "xtest"] }
xkeysym = "0.2"
bitflags = "2"
