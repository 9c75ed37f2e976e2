[package]
name = "gnss_share"
version = "0.1.0"
edition = "2021"
publish = false

[dependencies]
clap = { version = "=4.6.7", features = ["derive"] }
daemonize = "=0.5.0"
env_logger = "=0.11.11"
libc = "=0.2.190"
log = "=0.4.34"
mio = { version = "=1.2.4", features = ["os-poll", "net"] }
mio-serial = "=5.0.7"
signal-hook = "=0.4.5"
