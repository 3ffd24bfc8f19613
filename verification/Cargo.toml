[package]
name = "netidx_excel"
version = "0.1.0"
edition = "2021"
publish = false

[dependencies]
chrono = { version = "=0.4.45", default-features = false, features = ["std"] }
anyhow = "=1.0.104"
com = "=0.6.0"
dirs = "=4.0.0"
futures = "=0.3.34"
log = { version = "=0.4.34", features = ["serde"] }
once_cell = "=1.21.4"
parking_lot = "=0.12.5"
serde = { version = "=1.0.229", features = ["derive"] }
serde_json = "=1.0.154"
simplelog = "=0.12.2"
tokio = { version = "=1.54.1", features = ["rt-multi-thread"] }
windows = { version = "=0.43.0", features = ["Win32_Foundation", "Win32_Globalization", "Win32_System_Com", "Win32_System_Com_Marshal", "Win32_System_Com_StructuredStorage", "Win32_System_Ole", "Win32_System_Threading"] }
winreg = "=0.10.1"
