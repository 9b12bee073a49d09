[package]
name = "minihttp"
version = "0.1.0"
edition = "2021"
publish = false

[dependencies]
anyhow = "=1.0.104"
brotli = "=9.0.0"
chrono = "=0.4.45"
clap = { version = "=4.6.7", features = ["derive", "env"] }
ctrlc = "=3.5.2"
env_logger = "=0.11.11"
flate2 = "=1.1.10"
libc = "=0.2.190"
log = "=0.4.34"
threadpool = "=1.8.1"
