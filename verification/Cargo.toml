[package]
name = "revengine-dlss5"
version = "0.11.18"
edition = "2021"
publish = false

[dependencies]
anyhow = "=1.0.104"
eframe = { version = "=0.37.0", default-features = false, features = ["default_fonts", "glow", "wgpu", "x11"] }
image = { version = "=0.25.10", default-features = false, features = ["jpeg", "png"] }
raw-window-handle = "=0.6.2"
regex = "=1.13.1"
reqwest = { version = "=0.13.5", default-features = false, features = ["blocking", "json", "rustls"] }
rfd = "=0.17.2"
serde_json = "=1.0.154"
windows-sys = { version = "=0.61.2", features = ["Win32_Foundation", "Win32_Graphics_Gdi", "Win32_Storage_FileSystem", "Win32_System_Console", "Win32_System_LibraryLoader", "Win32_System_Registry", "Win32_UI_Shell", "Win32_UI_WindowsAndMessaging"] }
zip = { version = "=9.2.2", default-features = false, features = ["deflate"] }
