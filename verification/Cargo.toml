[package]
name = "rustos"
version = "0.1.0"
edition = "2021"
publish = false

[dependencies]
x86_64 = { version = "=0.14.13", default-features = false, features = ["instructions", "inline_asm"] }
spin = "=0.12.3"
lazy_static = "=1.5.1"
pic8259 = "=0.10.4"
fatfs = "=0.3.6"
xmas-elf = "=0.10.0"
embedded-graphics = "=0.8.2"
buddy_system_allocator = "=0.13.0"
uefi = { version = "=0.41.0", features = ["alloc"] }
