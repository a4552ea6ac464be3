[package]
name = "frontier"
version = "0.1.0"
edition = "2021"
publish = false

[dependencies]
ahash = "=0.7.8"
anyhow = "=1.0.104"
bevy = { version = "=0.7.0", default-features = false, features = ["render", "bevy_winit", "png", "x11", "filesystem_watcher"] }
bevy-inspector-egui = { version = "=0.11.0", default-features = false }
bevy_asset_loader = { version = "=0.11.0", features = ["2d"] }
bevy_tweening = "=0.4.0"
hashbrown = "=0.11.2"
heron = { version = "=3.1.0", features = ["2d"] }
rand = "=0.8.8"
ron = "=0.7.1"
serde = { version = "=1.0.229", features = ["derive"] }
