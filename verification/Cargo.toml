[package]
name = "scanner-core"
version = "0.1.0"
edition = "2021"
publish = false

[dependencies]
globset = "0.4"
serde = { version = "1", features = ["derive"] }
serde_json = "1"
jwalk = "0.8"
fs2 = "0.4"
thiserror = "*"
junction = "*"
winreg = "*"
windows-sys = { version = "*", features = ["Win32_Foundation", "Win32_Storage_FileSystem"] }
