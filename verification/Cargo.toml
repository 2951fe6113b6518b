[package]
name = "rustshot-wayland"
version = "0.1.0"
edition = "2021"
publish = false

[dependencies]
ab_glyph = "0.2"
anyhow = "1"
chrono = "0.4"
clap = { version = "4", features = ["derive"] }
crossbeam-channel = "0.5"
dirs = "5"
image = { version = "0.25", default-features = false, features = ["png", "pnm"] }
imageproc = { version = "0.25", default-features = false }
ksni = "0.2"
libc = "0.2"
libwayshot = "0.3"
serde = { version = "1", features = ["derive"] }
serde_json = "1"
smithay-client-toolkit = "0.19"
tiny-skia = "0.11"
tokio = { version = "1", features = ["rt", "macros", "sync", "time", "signal"] }
toml = "0.8"
tracing = "0.1"
tracing-subscriber = { version = "0.3", features = ["env-filter"] }
wayland-client = "0.31"
zbus = { version = "4", default-features = false, features = ["tokio"] }
