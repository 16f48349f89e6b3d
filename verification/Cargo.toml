[package]
name = "stem_desktop"
version = "0.1.37"
edition = "2021"
publish = false

[dependencies]
base64 = "=0.22.1"
semver = "=1.0.28"
url = "=2.5.8"
uuid = { version = "=1.29.0", features = ["v4"] }
serde = { version = "=1.0.229", features = ["derive"] }
serde_json = "=1.0.154"
log = "=0.4.35"
tempfile = "=3.27.0"
zip = { version = "=2.6.1", default-features = false, features = ["deflate"] }
tokio = { version = "=1.54.1", features = ["time"] }
reqwest = { version = "=0.12.28", default-features = false, features = ["json", "rustls-tls"] }
windows-sys = { version = "=0.59.0", features = ["Win32_Foundation", "Win32_Storage_FileSystem", "Win32_System_Kernel", "Win32_System_Memory", "Win32_System_Diagnostics_Debug", "Win32_System_Threading", "Win32_System_SystemInformation", "Win32_UI_Input_KeyboardAndMouse", "Win32_UI_WindowsAndMessaging"] }
windows = { version = "=0.58.0", features = ["Win32_Foundation", "Win32_System_Com", "Win32_UI_Shell", "Win32_UI_WindowsAndMessaging"] }
winreg = "=0.52.0"
