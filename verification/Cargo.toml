[package]
name = "redactor"
version = "0.1.0"
edition = "2021"
publish = false

[dependencies]
serde_json = "=1.0.154"
arboard = "=3.7.0"
global-hotkey = "=0.9.0"
objc2 = "=0.6.5"
windows-sys = { version = "0.59", features = ["Win32_Foundation", "Win32_UI_WindowsAndMessaging"] }
