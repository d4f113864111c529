[package]
name = "druid-shell"
version = "0.4.0"
edition = "2021"
publish = false

[dependencies]
log = "0.4"
winapi = { version = "0.3", features = ["errhandlingapi", "minwindef", "ntdef", "winbase", "winerror", "winuser"] }
cocoa = "0.20"
objc = "0.2"
