[package]
name = "colossal"
version = "0.1.0"
edition = "2021"
publish = false

[dependencies]
rhai = "=1.27.0"
tokio = { version = "=1.54.1", features = ["rt-multi-thread", "sync", "time", "net"] }
tokio-modbus = { version = "=0.17.0", default-features = false, features = ["tcp"] }
serde = { version = "=1.0.229", features = ["derive"] }
anyhow = "=1.0.104"
egui = "=0.31.1"
eframe = { version = "=0.31.1", default-features = false, features = ["glow", "persistence", "default_fonts", "x11"] }
egui_extras = "=0.31.1"
egui-phosphor = "=0.9.0"

[dev-dependencies]
regex = "=1.13.1"
