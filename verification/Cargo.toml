[package]
name = "onechat"
version = "0.1.0"
edition = "2021"
publish = false

[dependencies]
chrono = "=0.4.45"
unicode-segmentation = "=1.13.3"
base64 = "=0.22.1"
zip = { version = "=9.2.2", default-features = false, features = ["deflate"] }
image = { version = "=0.25.10", default-features = false, features = ["png", "jpeg", "gif", "webp", "bmp", "tiff", "ico", "pnm"] }
rodio = { version = "=0.23.0", default-features = false, features = ["wav", "mp3"] }
hayro = "=0.9.0"
undoc = "=0.27.1"
tokio = { version = "=1.54.1", features = ["rt-multi-thread", "process", "time", "macros", "sync"] }
tokio-util = "=0.7.20"
futures-util = "=0.3.34"
