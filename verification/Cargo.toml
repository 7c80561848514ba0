[package]
name = "xub"
version = "0.1.0"
edition = "2021"
publish = false

[dependencies]
anyhow = "1"
axum = "*"
chrono = "*"
html-escape = "*"
maud = { version = "*", features = ["axum"] }
nanoid = "*"
pulldown-cmark = "*"
serde = { version = "1", features = ["derive"] }
serde-saphyr = "*"
tokio = { version = "1", features = ["full"] }
tower-sessions = "*"
