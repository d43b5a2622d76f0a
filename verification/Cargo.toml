[package]
name = "console_raycaster"
version = "0.1.0"
edition = "2021"
publish = false

[dependencies]
winapi = { version = "0.3.9", features = ["consoleapi", "errhandlingapi", "processenv", "wincon", "winuser", "windef", "minwindef"] }
