[package]
name = "kim"
version = "0.1.0"
edition = "2021"
publish = false

[dependencies]
chrono = "=0.4.45"
rusqlite = "=0.32.1"
clap = { version = "=4.6.7", features = ["derive"] }
crossbeam-channel = "=0.5.17"
log = "=0.4.35"
simplelog = "=0.12.2"
windows = { version = "=0.52.0", features = ["implement", "Win32_Foundation", "Win32_Security", "Win32_System_Registry", "Win32_System_Threading", "Win32_System_Com", "Win32_System_Ole", "Win32_System_Variant", "Win32_UI_WindowsAndMessaging", "Win32_UI_Accessibility"] }
