[package]
name = "clipdeck"
version = "0.1.0"
edition = "2021"
publish = false

[dependencies]
blake3 = "=1.8.7"
mime = "=0.3.17"
uuid = { version = "=1.29.0", features = ["v4"] }
time = { version = "=0.3.55", features = ["formatting", "parsing", "serde"] }
ammonia = "=4.2.4"
image = { version = "=0.25.10", default-features = false, features = ["png"] }
serde = { version = "=1.0.229", features = ["derive"] }
serde_json = "=1.0.154"
rusqlite = { version = "=0.41.1", features = ["bundled"] }
tokio = { version = "=1.54.1", features = ["full"] }
x11rb = { version = "=0.13.2", features = ["xtest", "xfixes"] }
wayland-client = "=0.31.15"
wayland-protocols-wlr = { version = "=0.3.12", features = ["client"] }
global-hotkey = "=0.9.0"
directories = "=6.0.0"
dotenvy = "=0.15.7"
tracing = "=0.1.44"
tracing-subscriber = { version = "=0.3.23", features = ["env-filter"] }
anyhow = "=1.0.104"
thiserror = "=2.0.21"
libc = "=0.2.191"
async-trait = "=0.1.92"

[dev-dependencies]
tempfile = "=3.27.0"
