[package]
name = "pocketjs_kobo"
version = "0.1.0"
edition = "2021"
publish = false

[dependencies]
anyhow = "1"
env_logger = "0.11"
glam = "0.29"
libc = "0.2"
log = "0.4"
signal-hook = "0.3"
ureq = "2"
