[package]
name = "stork"
version = "0.1.0"
edition = "2021"
publish = false

[dependencies]
dataview = "=1.1.0"
pelite = "=0.10.0"
thiserror = "=2.0.21"
wincorda = "=0.3.0"
winapi = { version = "=0.3.9", features = ["errhandlingapi", "fileapi", "handleapi", "jobapi2", "libloaderapi", "memoryapi", "minwinbase", "minwindef", "ntdef", "processthreadsapi", "psapi", "synchapi", "sysinfoapi", "tlhelp32", "winbase", "winerror", "winnt", "wow64apiset"] }
