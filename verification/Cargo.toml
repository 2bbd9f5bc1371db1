[package]
name = "priosun"
version = "0.1.0"
edition = "2021"
publish = false

[dependencies]
anyhow = "1"
clap = { version = "4", features = ["derive"] }
jail = "=0.3.1"
libc = "0.2"
nvtree = "=0.0.2"
serde = { version = "1", features = ["derive"] }
tabled = "=0.22.0"
toml = "=1.1.8"
tracing = "0.1"
tracing-subscriber = "0.3"
