[package]
name = "previewer"
version = "0.1.0"
edition = "2021"
publish = false

[dependencies]
image = { version = "0.25", default-features = false, features = ["png", "jpeg", "webp"] }
serde = { version = "1", features = ["derive"] }
serde_json = "1"
thiserror = "2"
tracing = "0.1"
lopdf = "*"
pdfium-render = "*"
cairo-rs = "*"
libheif-rs = "*"
