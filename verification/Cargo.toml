[package]
name = "dsh_pet"
version = "0.1.0"
edition = "2021"
publish = false

[dependencies]
serde = { version = "1", features = ["derive"] }
serde_json = "1"
anyhow = "1"
tracing = "0.1"
tracing-subscriber = { version = "0.3", default-features = false, features = ["fmt", "env-filter", "std"] }
tokio = { version = "1", features = ["rt-multi-thread", "macros", "time", "process", "io-util", "sync", "net"] }
tokio-util = "0.7"
tokio-tungstenite = "0.24"
futures-util = "0.3"
reqwest = { version = "0.12", default-features = false, features = ["json"] }
rand = "0.8"
directories = "5"
winit = { version = "0.30", default-features = false, features = ["x11", "rwh_06"] }
softbuffer = { version = "0.4", default-features = false, features = ["x11"] }
tiny-skia = "0.11"
ab_glyph = "0.2"
image = { version = "0.25", default-features = false, features = ["png"] }
bytemuck = "1"
tray-icon = { version = "0.19", default-features = false }
arboard = { version = "3", default-features = false }
single-instance = "0.3"
