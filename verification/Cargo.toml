[package]
name = "aegis_portal"
version = "0.1.0"
edition = "2021"
publish = false

[dependencies]
aes = "0.8"
argon2 = "0.5"
async-channel = "2"
cbc = { version = "0.1", features = ["alloc", "block-padding"] }
chacha20poly1305 = "0.10"
dirs = "*"
env_logger = "0.11"
hkdf = "0.12"
libc = "0.2"
log = "0.4"
mime_guess = "2"
num-bigint = { version = "0.4", features = ["rand"] }
pamsm = { version = "0.5", features = ["libpam"] }
pipewire = "*"
rand = "0.8"
serde = { version = "1", features = ["derive"] }
serde_json = "1"
sha2 = "0.10"
thiserror = "*"
zbus = "5"
zeroize = "1"

[dev-dependencies]
hmac = "0.12"
