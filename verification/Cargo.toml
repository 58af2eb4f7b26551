[package]
name = "exokernel"
version = "0.1.0"
edition = "2021"
publish = false

[dependencies]
x86_64 = { version = "=0.15.5", default-features = false, features = ["instructions"] }
spin = "=0.9.9"
bootloader_api = "=0.11.17"
linked_list_allocator = "=0.10.6"
uart_16550 = "=0.3.2"
