[package]
name = "display_data"
version = "0.1.0"
edition = "2021"
publish = false

[dependencies]
windows = { version = "=0.52.0", features = ["Win32_Devices_Display", "Win32_Foundation", "Win32_Graphics_Gdi", "Win32_Security", "Win32_Storage_FileSystem", "Win32_UI_WindowsAndMessaging"] }
