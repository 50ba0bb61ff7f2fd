[package]
name = "mykvm"
version = "0.1.0"
edition = "2021"
publish = false

[dependencies]
arboard = "=3.7.0"
base64 = "=0.22.1"
core-foundation = "=0.10.1"
core-graphics = "=0.25.0"
image = { version = "=0.25.10", default-features = false, features = ["png", "bmp"] }
log = "=0.4.35"
rmp-serde = "=1.3.1"
serde = { version = "=1.0.229", features = ["derive"] }
windows-sys = { version = "=0.61.2", features = ["Win32_Foundation", "Win32_Graphics_Gdi", "Win32_System_DataExchange", "Win32_System_LibraryLoader", "Win32_System_Memory", "Win32_System_Ole", "Win32_System_RemoteDesktop", "Win32_System_StationsAndDesktops", "Win32_System_SystemInformation", "Win32_System_Threading", "Win32_UI_Input_KeyboardAndMouse", "Win32_UI_WindowsAndMessaging"] }
x11rb = { version = "=0.13.2", features = ["xfixes"] }
