[package]
name = "drt"
version = "0.1.0"
edition = "2021"
publish = false

[dependencies]
regex = "=1.13.1"
which = "=8.0.6"
getopts = "=0.2.24"
ansi_term = "=0.12.1"
log = "=0.4.35"
simple_logger = "=5.2.0"
serde = { version = "=1.0.229", features = ["derive"] }
serde_derive = "=1.0.229"
serde_json = "=1.0.154"
libc = "=0.2.191"
tempfile = "3"
