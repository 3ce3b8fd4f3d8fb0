[package]
name = "vmm-core"
version = "0.1.0"
edition = "2021"
publish = false

[dependencies]
goblin = "0.9"
windows = { version = "0.58", features = ["Win32_Foundation", "Win32_System_Hypervisor", "Win32_System_Memory"] }
