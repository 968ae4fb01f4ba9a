[package]
name = "nomux"
version = "0.2.0"
edition = "2021"
publish = false

[dependencies]
libc = "0.2"
rustix = { version = "1", features = ["event", "fs", "net", "pipe", "process", "pty", "stdio", "termios"] }
