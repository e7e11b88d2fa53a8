[package]
name = "sg_agent"
version = "0.1.0"
edition = "2021"
publish = false

[dependencies]
reqwest = { version = "=0.12.28", default-features = false, features = ["json"] }
rand = "=0.9.5"
serde = { version = "=1.0.229", features = ["derive"] }
serde_json = "=1.0.154"
tokio = { version = "=1.54.1", features = ["full"] }
dotenv = "=0.15.0"
async-trait = "=0.1.92"
nvim-rs = { version = "=0.9.2", features = ["use_tokio"] }
rmpv = "=1.3.1"
tracing = "=0.1.44"
tracing-subscriber = "0.3"
iced = { version = "=0.14.0", default-features = false, features = ["tiny-skia", "x11", "markdown", "svg", "canvas", "tokio", "advanced"] }
iced_futures = "=0.14.0"
