[package]
name = "direct-computing"
version = "0.1.0"
edition = "2021"
publish = false

[dependencies]
argon2 = "=0.5.3"
bytes = "=1.12.1"
minifb = "=0.28.0"
openh264 = "=0.9.9"
quinn = "=0.11.12"
rand = "=0.8.8"
rcgen = "=0.13.2"
rustls = { version = "=0.23.46", features = ["ring"] }
sha2 = "=0.10.9"
tokio = { version = "=1.54.1", features = ["full"] }
windows = { version = "=0.62.2", features = ["Win32_Foundation", "Win32_Graphics_Direct3D", "Win32_Graphics_Direct3D11", "Win32_Graphics_Dxgi", "Win32_Graphics_Dxgi_Common", "Win32_Graphics_Gdi", "Win32_Media_MediaFoundation", "Win32_System_Com", "Win32_System_Com_StructuredStorage", "Win32_System_Ole", "Win32_System_Variant", "Win32_UI_Input_KeyboardAndMouse", "Win32_UI_WindowsAndMessaging"] }
