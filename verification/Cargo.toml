[package]
name = "retheme_codex"
version = "0.1.0"
edition = "2021"
publish = false

[dependencies]
hex = "=0.4.3"
libc = "=0.2.191"
plist = "=1.10.3"
rand_core = { version = "=0.6.4", features = ["getrandom"] }
serde = { version = "=1.0.229", features = ["derive"] }
serde_json = "=1.0.154"
tempfile = "=3.27.0"
tungstenite = "=0.30.0"
windows = { version = "=0.61.3", features = ["ApplicationModel", "ApplicationModel_Core", "Foundation", "Foundation_Collections", "Management_Deployment", "Storage", "Win32_Foundation", "Win32_System_Com", "Win32_System_Threading", "Win32_UI_Shell"] }
