[package]
name = "gamezap"
version = "0.1.0"
edition = "2021"
publish = false

[dependencies]
wgpu = { version = "=22.1.0", default-features = false, features = ["wgsl"] }
nalgebra = "=0.33.3"
bytemuck = { version = "=1.25.2", features = ["derive"] }
tobj = "=4.0.5"
pollster = "=0.3.0"
flume = "=0.11.1"
tokio = { version = "=1.54.1", features = ["rt-multi-thread", "macros", "sync"] }
async-scoped = { version = "=0.9.0", features = ["use-tokio"] }
async-trait = "=0.1.92"
log = "=0.4.35"
enum-as-inner = "=0.6.1"
image = { version = "0.25", default-features = false, features = ["png", "jpeg"] }
