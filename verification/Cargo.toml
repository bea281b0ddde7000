[package]
name = "tool_locator"
version = "0.1.0"
edition = "2021"
publish = false

[dependencies]
regex = "*"
flate2 = "*"
tar = "*"
xz2 = { version = "*", features = ["static"] }
zip = { version = "*", default-features = false, features = ["deflate"] }
serde = { version = "*", features = ["derive"] }
reqwest = { version = "*", default-features = false, features = ["rustls-tls"] }
tokio = { version = "*", features = ["rt-multi-thread", "macros"] }
rusqlite = { version = "*", features = ["bundled"] }
