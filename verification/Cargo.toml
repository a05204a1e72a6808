[package]
name = "mmserver"
version = "0.8.3"
edition = "2021"
publish = false

[dependencies]
anyhow = "=1.0.104"
ash = { version = "=0.38.0", default-features = false, features = ["std", "loaded"] }
bytes = "=1.12.1"
clap = { version = "=4.6.7", features = ["derive"] }
crossbeam-channel = "=0.5.17"
ctrlc = "=3.5.2"
cursor-icon = "=1.2.0"
drm-fourcc = "=2.2.0"
hashbrown = "=0.14.5"
ip_rfc = "=0.1.0"
listenfd = "=1.0.2"
mdns-sd = "=0.11.5"
mio = { version = "=1.2.4", features = ["os-poll", "net", "os-ext"] }
parking_lot = "=0.12.5"
pulseaudio = "=0.3.2"
rand = "=0.8.8"
raptorq = "=2.0.1"
regex = "=1.13.1"
ring = "=0.17.14"
rustix = { version = "=0.38.44", features = ["system", "net", "process"] }
serde = { version = "=1.0.229", features = ["derive"] }
serde_json = "=1.0.154"
slotmap = "=1.1.1"
tiny_id = "=0.1.6"
toml = "=0.8.23"
tracing = "=0.1.44"
tracing-subscriber = { version = "=0.3.23", features = ["env-filter"] }
uuid = { version = "=1.29.0", features = ["v4"] }
x11rb = { version = "=0.13.2", features = ["composite"] }
