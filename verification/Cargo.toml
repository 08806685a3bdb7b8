[package]
name = "read_this"
version = "0.1.0"
edition = "2021"
publish = false

[dependencies]
base64 = "=0.22.1"
serde = { version = "1", features = ["derive"] }
serde_json = "1"
msedge-tts = "*"
rodio = "*"
clipboard-win = "5"
windows-sys = { version = "*", features = ["Win32_UI_Input_KeyboardAndMouse"] }
