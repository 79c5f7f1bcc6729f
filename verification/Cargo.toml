[package]
name = "searchlight"
version = "0.3.2"
edition = "2021"
publish = false

[dependencies]
trust-dns-client = { version = "=0.22.0", features = ["mdns"] }
tokio = { version = "=1.54.1", features = ["rt", "net", "macros", "time", "sync"] }
socket2 = "=0.4.10"
if-addrs = "=0.10.2"
libc = "=0.2.191"
log = "=0.4.34"
thiserror = "=1.0.69"

[dev-dependencies]
dns-parser = "0.8"
