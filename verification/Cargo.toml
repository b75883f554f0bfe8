[package]
name = "dbgscope"
version = "0.1.0"
edition = "2021"
publish = false

[dependencies]
thiserror = "2"
windows = { version = "0.62", features = [
    "Win32_Foundation",
    "Win32_System_Diagnostics_Debug",
    "Win32_System_Diagnostics_Debug_Extensions",
    "Win32_System_Kernel",
    "Win32_System_Memory",
    "Win32_System_Time",
    "Win32_Storage_FileSystem",
    "Win32_Security",
] }
