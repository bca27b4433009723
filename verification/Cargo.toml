[package]
name = "snek_apollo"
version = "0.1.0"
edition = "2021"
publish = false

[dependencies]
ureq = "2"
windows = { version = "0.56", features = [
    "implement",
    "Foundation",
    "Win32_Foundation",
    "Win32_Media_Audio",
    "Win32_Media_MediaFoundation",
    "Win32_System_Com",
    "Win32_System_Com_StructuredStorage",
    "Win32_System_SystemInformation",
    "Win32_System_Variant",
    "Win32_UI_Shell_PropertiesSystem",
    "Win32_Graphics_Direct2D",
    "Win32_Graphics_Direct2D_Common",
    "Win32_Graphics_Dxgi_Common",
] }
