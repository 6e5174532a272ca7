[package]
name = "screenstub"
version = "0.1.0"
edition = "2021"
publish = false

[dependencies]
anyhow = "=1.0.104"
base64 = "=0.13.1"
bytes = "=1.12.1"
clap = "=2.34.0"
csv = "=1.4.0"
ddc-hi = "=0.4.1"
env_logger = "=0.11.11"
futures = "=0.3.34"
humantime-serde = "=1.1.1"
input-linux = { version = "=0.7.1", features = ["codec", "serde", "tokio-util-0_7"] }
libc = "=0.2.191"
log = "=0.4.35"
mio = "=0.6.23"
qapi = { version = "=0.15.0", features = ["qmp", "qga", "async-tokio-all"] }
qapi-qmp = "=0.15.0"
qapi-spec = "=0.3.2"
serde = { version = "=1.0.229", features = ["derive"] }
serde-hex = "=0.1.0"
serde_json = "=1.0.154"
serde_yaml = "=0.9.34"
smallvec = "=1.16.4"
tokio = { version = "=1.54.1", features = ["full"] }
tokio-util = { version = "=0.7.20", features = ["codec"] }
