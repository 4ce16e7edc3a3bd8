[package]
name = "launcher"
version = "0.1.0"
edition = "2021"
publish = false

[dependencies]
anyhow = "1"
curl = "0.4"
libloading = "0.8"
regex = "1"
serde_json = "1"
winapi = { version = "0.3", features = ["combaseapi", "knownfolders", "minwindef", "ntdef", "processenv", "shlobj", "winbase", "winerror", "winnt"] }
