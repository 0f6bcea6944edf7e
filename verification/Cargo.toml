[package]
name = "hyperpod"
version = "0.1.0"
edition = "2021"
publish = false

[dependencies]
anyhow = "1"
clap = { version = "4", features = ["derive"] }
kvm-bindings = { version = "*", features = ["fam-wrappers"] }
kvm-ioctls = "*"
rayon = "1"
serde = { version = "1", features = ["derive"] }
toml = "*"
windows-sys = { version = "0.59", features = [
    "Win32_Foundation",
    "Win32_Security",
    "Win32_System_Hypervisor",
    "Win32_System_JobObjects",
    "Win32_System_Threading",
] }
