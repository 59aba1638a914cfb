[package]
name = "sup_linux"
version = "0.1.0"
edition = "2021"
publish = false

[dependencies]
anyhow = "1"
chrono = "0.4"
clap = { version = "4", features = ["derive"] }
crossterm = "0.27"
directories = "5"
dirs = "5"
image = "0.24"
libc = "0.2"
ort = { version = "2.0.0-rc.13", default-features = false, features = ["std", "ndarray"] }
ndarray = "0.16"
rand = "0.8"
serde = { version = "1", features = ["derive"] }
sha2 = "0.10"
toml = "0.8"
v4l = "0.14"
