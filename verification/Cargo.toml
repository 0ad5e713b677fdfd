[package]
name = "kafer_core"
version = "0.1.0"
edition = "2021"
publish = false

[dependencies]
anyhow = "=1.0.104"
iced-x86 = { version = "=1.21.0", default-features = false, features = ["std", "decoder", "nasm"] }
pdb2 = "=0.11.0"
thiserror = "=1.0.69"
windows = { version = "=0.52.0", features = ["Win32_Foundation", "Win32_Security", "Win32_Storage_FileSystem", "Win32_System_Diagnostics_Debug", "Win32_System_Kernel", "Win32_System_SystemInformation", "Win32_System_SystemServices", "Win32_System_Threading"] }
