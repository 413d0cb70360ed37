[package]
name = "enum_snapins"
version = "0.1.0"
edition = "2021"
publish = false

[dependencies]
uuid = "1"
serde = "1"
log = "0.4"
registry = "1"
windows = { version = "0.52", features = [
    "Win32_Foundation",
    "Win32_Graphics_Gdi",
    "Win32_System_Com",
    "Win32_System_LibraryLoader",
    "Win32_System_Mmc",
    "Win32_UI_WindowsAndMessaging",
] }
winsafe = "*"
