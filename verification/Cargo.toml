[package]
name = "litebox"
version = "0.1.0"
edition = "2021"
publish = false

[dependencies]
arrayvec = "=0.7.8"
bitvec = "=1.1.1"
getrandom = "=0.3.4"
hashbrown = "=0.15.5"
rand_chacha = "=0.9.0"
rand_core = "=0.9.5"
rangemap = "=1.8.0"
sha2 = "=0.10.9"
x509-cert = "=0.2.5"
zeroize = "=1.9.1"
windows-sys = { version = "=0.60.2", features = ["Win32_Foundation", "Win32_Security", "Win32_System_Memory", "Win32_System_Threading", "Win32_System_SystemInformation", "Win32_System_Diagnostics_Debug", "Win32_System_Kernel", "Win32_System_WindowsProgramming", "Win32_System_Console"] }
