[package]
name = "yos_kernel"
version = "0.1.0"
edition = "2021"
publish = false

[dependencies]
bootloader = { version = "=0.9.35", features = ["map_physical_memory"] }
conquer-once = "=0.4.0"
crossbeam-queue = "=0.3.14"
futures-util = "=0.3.34"
lazy_static = "=1.5.1"
linked_list_allocator = "=0.10.6"
pc-keyboard = "=0.7.0"
pic8259 = "=0.10.4"
spin = "=0.9.9"
volatile = "=0.2.7"
x86_64 = { version = "=0.15.5", default-features = false, features = ["instructions"] }
