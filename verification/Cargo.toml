[package]
name = "tapauth"
version = "0.1.0"
edition = "2021"
publish = false

[dependencies]
aes-gcm = "0.10"
hkdf = "0.12"
hmac = "0.12"
sha2 = "0.10"
ed25519-dalek = "2"
x25519-dalek = { version = "2", features = ["static_secrets"] }
getrandom = "0.3"
rand = { version = "0.9", features = ["os_rng"] }
hex = "0.4"
serde = { version = "1", features = ["derive"] }
serde_json = "1"
toml = "0.8"
chrono = { version = "0.4", features = ["serde"] }
tokio = { version = "1", features = ["full"] }
socket2 = { version = "0.5", features = ["all"] }
if-addrs = "0.13"
libc = "0.2"
hostname = "0.4"
nix = { version = "0.29", features = ["user", "socket"] }
thiserror = "2"
tracing = "0.1"
tracing-subscriber = { version = "0.3", features = ["env-filter"] }
prost = "0.13"
bytes = "1"
whoami = "1"
local-ip-address = "0.6"
zbus = { version = "5", default-features = false, features = ["tokio"] }
secrecy = "0.10"
rand_core = "0.9"
