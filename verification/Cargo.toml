[package]
name = "freight_train"
version = "0.1.0"
edition = "2021"
publish = false

[dependencies]
tokio-util = { version = "=0.7.20", features = ["codec"] }
packet = "=0.1.4"
ipnet = "=2.12.2"
cidr = "=0.3.2"
url = "=2.5.8"
tokio = { version = "=1.54.1", features = ["full"] }
futures = "=0.3.34"
serde = { version = "=1.0.229", features = ["derive"] }
serde_derive = "=1.0.229"
serde_cbor = "=0.11.2"
serde_bytes = "=0.11.19"
clap = { version = "=4.6.7", features = ["derive"] }
confy = "=0.6.1"
dialoguer = "=0.11.0"
tun = { version = "=0.7.22", features = ["async"] }
toml = "=0.8.23"
garde = { version = "=0.22.1", features = ["derive", "url", "regex"] }
quinn = "=0.11.12"
rustls = "=0.23.46"
rcgen = "=0.13.2"
reqwest = { version = "0.12", features = ["json"] }
async-trait = "0.1"
rtnetlink = "0.14"
netlink-packet-route = "0.19"
netns-rs = "0.1"
