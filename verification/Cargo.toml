[package]
name = "yx_bot"
version = "0.1.0"
edition = "2021"
publish = false

[dependencies]
serde_json = "=1.0.154"
poise = "=0.6.2"
sqlx = { version = "=0.8.6", default-features = false, features = ["sqlite", "runtime-tokio", "macros", "migrate"] }
reqwest = { version = "=0.12.28", default-features = false, features = ["json", "rustls-tls"] }
image = { version = "=0.25.10", default-features = false, features = ["bmp", "dds", "exr", "ff", "gif", "hdr", "ico", "jpeg", "png", "pnm", "qoi", "tga", "tiff", "webp"] }
imageproc = { version = "=0.25.1", default-features = false }
ab_glyph = "=0.2.32"
moka = { version = "=0.12.16", features = ["future"] }
tokio = { version = "=1.54.1", features = ["full"] }
tracing = "=0.1.44"
tracing-subscriber = { version = "=0.3.23", features = ["env-filter"] }
dotenvy = "=0.15.7"
