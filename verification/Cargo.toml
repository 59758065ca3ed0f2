[package]
name = "dnf-autofire"
version = "0.1.0"
edition = "2021"
publish = false

[dependencies]
serde = { version = "1", features = ["derive"] }
serde_json = "1"
thiserror = "2"
tracing = "0.1"
tracing-subscriber = { version = "0.3", features = ["env-filter", "chrono"] }
tracing-appender = "0.2"
parking_lot = "0.12"
once_cell = "1"
chrono = "0.4"
ts-rs = "11"
windows = { version = "0.61", features = ["Win32_Foundation", "Win32_UI_WindowsAndMessaging", "Win32_UI_Input_KeyboardAndMouse", "Win32_UI_Input", "Win32_System_Threading", "Win32_System_LibraryLoader", "Win32_Media", "Win32_Security", "Win32_UI_Shell", "Win32_Storage_FileSystem"] }
windows-capture = "1.5"
apriltag = "0.4"
