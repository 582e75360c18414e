[package]
name = "featherclick"
version = "0.1.0"
edition = "2021"
publish = false

[dependencies]
global-hotkey = "*"
enigo = "*"
rand = "*"
serde = { version = "1", features = ["derive"] }
serde_json = "1"
dirs = "*"
eframe = { version = "*", default-features = false, features = ["default_fonts", "glow", "wayland", "x11"] }
windows-sys = { version = "*", features = ["Win32_System_Console", "Win32_UI_HiDpi", "Win32_Media"] }
