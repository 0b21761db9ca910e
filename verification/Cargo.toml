[package]
name = "jura_os"
version = "0.1.0"
edition = "2021"
publish = false

[dependencies]
crossbeam-queue = "0.2"
pc-keyboard = "0.7"
futures-util = { version = "0.3", default-features = false, features = ["alloc"] }
conquer-once = { version = "0.2", default-features = false }
lazy_static = { version = "1", features = ["spin_no_std"] }
spin = "0.5"
volatile = "0.2"
x86_64 = { version = "0.14", default-features = false, features = ["instructions"] }
bootloader = { version = "0.9", features = ["map_physical_memory"] }
