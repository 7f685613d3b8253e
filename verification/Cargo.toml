[package]
name = "displayflow"
version = "0.1.2"
edition = "2021"
publish = false

[dependencies]
sha2 = "=0.10.9"
df_ddc = "=0.1.1"
df_displmgr = "=0.1.1"
anyhow = "1"
chrono = "0.4"
clap = { version = "4", features = ["derive"] }
ctrlc = "3"
log = "0.4"
serde = { version = "1", features = ["derive"] }
serde_json = "1"
reqwest = { version = "0.11", default-features = false, features = ["blocking", "json"] }
tokio = { version = "1", features = ["rt-multi-thread"] }
futures = "0.3"
winreg = "0.55"
windows = { version = "0.58", features = ["Win32_Foundation", "Win32_Graphics_Gdi", "Win32_UI_WindowsAndMessaging", "Win32_UI_Input_KeyboardAndMouse", "Win32_UI_Shell", "Win32_System_LibraryLoader", "Win32_UI_HiDpi", "Win32_Devices_Display"] }
