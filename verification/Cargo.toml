[package]
name = "dsh_launcher"
version = "0.6.0"
edition = "2021"
publish = false

[dependencies]
dirs = "6"
libc = "0.2"
rfd = { version = "0.15", default-features = false, features = ["async-std", "xdg-portal"] }
serde = { version = "1", features = ["derive"] }
serde_json = "1"
ureq = { version = "2", default-features = false, features = ["tls"] }
