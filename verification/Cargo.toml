[package]
name = "helium_gecko"
version = "0.1.0"
edition = "2021"
publish = false

[dependencies]
serde = { version = "=1.0.229", features = ["derive"] }
serde_json = "=1.0.154"
toml = "=0.8.23"
directories = "=5.0.1"
clap = { version = "=4.6.7", features = ["derive"] }
log = "=0.4.35"
env_logger = "=0.11.11"
tokio = { version = "=1.54.1", features = ["rt", "rt-multi-thread"] }
winit = "=0.28.7"
glutin = "=0.30.10"
glutin-winit = "=0.3.0"
raw-window-handle = "=0.5.2"
egui = "=0.22.0"
egui-winit = "=0.22.0"
egui_glow = "=0.22.0"
glow = "=0.12.3"
windows = { version = "0.48", features = ["Win32_Foundation", "Win32_UI_WindowsAndMessaging"] }
