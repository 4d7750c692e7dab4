[package]
name = "pb_cheatsheet"
version = "0.1.0"
edition = "2021"
publish = false

[dependencies]
anyhow = "1"
ashpd = { version = "0.9", default-features = false, features = ["tokio"] }
async-trait = "0.1"
bincode = "1.3"
clap = { version = "4", features = ["derive", "env"] }
const_format = "0.2"
embedded-graphics = "0.8"
image = { version = "0.24", default-features = false, features = ["png", "jpeg"] }
inkview = "*"
inkview-eg = "*"
prost = "0.13"
serde = { version = "1", features = ["derive"] }
serde_json = "1"
tokio = { version = "1", features = ["full"] }
tokio-util = "0.7"
tonic = "0.12"
tracing = "0.1"
tracing-appender = "0.2"
tracing-subscriber = { version = "0.3", features = ["env-filter"] }
zbus = { version = "4", default-features = false, features = ["tokio"] }
