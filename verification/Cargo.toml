[package]
name = "ilegallearn_desktop"
version = "0.1.0"
edition = "2021"
publish = false

[dependencies]
base64 = "0.22"
rand = "0.9"
serde_json = "1"
sha2 = "0.10"
url = "2"
tauri = { version = "2", default-features = false, features = ["wry"] }
