[package]
name = "aurora_ui"
version = "0.1.0"
edition = "2021"
publish = false

[dependencies]
regex = "=1.13.1"
serde = "=1.0.229"
serde_json = "=1.0.154"
image = { version = "=0.25.10", default-features = false, features = ["png", "jpeg"] }
cosmic-text = "=0.19.0"
usvg = "=0.49.0"
tiny-skia = "=0.12.0"
log = "=0.4.35"
proc-macro2 = "=1.0.107"
quote = "=1.0.47"
