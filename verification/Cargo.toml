[package]
name = "asmlings"
version = "0.1.0"
edition = "2021"
publish = false

[dependencies]
anyhow = "1"
clap = { version = "4", features = ["derive"] }
libc = "0.2"
notify = "*"
rust-embed = "*"
unicorn-engine = { version = "2.1.5", default-features = false, features = ["arch_x86"] }
