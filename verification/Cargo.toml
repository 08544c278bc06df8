[package]
name = "qvopenapi"
version = "0.1.0"
edition = "2021"
publish = false

[dependencies]
chrono = "=0.4.45"
custom_error = "1"
encoding = "=0.2.33"
env_logger = "=0.10.2"
lazy_static = "1"
libc = "=0.2.191"
libloading = "=0.8.9"
log = "=0.4.34"
once_cell = "=1.21.4"
serde = { version = "=1.0.229", features = ["derive"] }
serde_json = "=1.0.154"
strum_macros = "0.25"
tokio = { version = "=1.54.1", features = ["rt", "macros", "time", "net"] }
warp = "=0.3.7"
windows = { version = "0.48", features = ["Win32_Foundation", "Win32_Graphics_Gdi", "Win32_System_LibraryLoader", "Win32_UI_WindowsAndMessaging"] }
