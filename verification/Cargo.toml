[package]
name = "vm_instance"
version = "0.1.0"
edition = "2021"
publish = false

[dependencies]
aes-gcm = "=0.10.3"
android_logger = "*"
anyhow = "1"
cstr = "*"
getrandom = "0.2"
hkdf = "=0.12.4"
lazy_static = "1"
log = "0.4"
nix = { version = "*", features = ["fs"] }
once_cell = "1"
serde = { version = "1", features = ["derive"] }
serde-xml-rs = "*"
sha2 = "=0.10.9"
virtio-drivers = "*"

[dev-dependencies]
uuid = "1"
