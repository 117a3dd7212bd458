[package]
name = "vm_manager"
version = "0.1.0"
edition = "2021"
publish = false

[dependencies]
image = { version = "=0.25.10", default-features = false, features = ["png"] }
libc = "=0.2.191"
notify = "=8.2.1"
ratatui = { version = "=0.30.2", features = ["unstable-rendered-line-info"] }
ratatui-image = { version = "=11.1.0", default-features = false, features = ["crossterm"] }
