[package]
name = "wattle_core"
version = "0.1.0"
edition = "2021"
publish = false

[dependencies]
noto-sans-mono-bitmap = { version = "=0.3.2", features = ["unicode-specials"] }
crossbeam-queue = "=0.3.14"
pc-keyboard = "=0.9.0"
futures-util = "=0.3.34"
bootloader_api = "=0.11.17"
spin = "=0.12.3"
conquer-once = "=0.4.0"
lazy_static = "=1.5.1"
