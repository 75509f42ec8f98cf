[package]
name = "mate"
version = "0.1.0"
edition = "2021"
publish = false

[dependencies]
anyhow = "=1.0.104"
bincode = { version = "=2.0.1", features = ["serde"] }
bitflags = "=1.3.2"
crossbeam = "=0.8.5"
csv = "=1.4.0"
ctrlc = "=3.5.2"
fxhash = "=0.2.1"
glam = "=0.34.2"
lazy_static = "=1.5.1"
message-io = "=0.19.0"
mint = "=0.5.9"
mio = { version = "=0.8.11", features = ["os-poll", "net"] }
nalgebra = "=0.34.2"
ahrs = "=0.8.0"
rgb = "=0.8.53"
rppal = "=0.22.1"
serde = { version = "=1.0.229", features = ["derive"] }
sysinfo = "=0.29.11"
thiserror = "=1.0.69"
tracing = "=0.1.44"
tracing-subscriber = "=0.3.23"
