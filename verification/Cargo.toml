[package]
name = "sysinfo"
version = "0.1.0"
edition = "2021"
publish = false

[dependencies]
rayon = "=1.12.0"
winapi = { version = "=0.3.9", features = ["handleapi", "minwinbase", "minwindef", "pdh", "processthreadsapi", "psapi", "sysinfoapi", "winerror", "winnt", "winreg"] }
