[package]
name = "upward"
version = "0.1.0"
edition = "2021"
publish = false

[dependencies]
crossterm = "0.25"
csv = "1"
dotenvy = "0.15"
reqwest = "0.11"
serde = { version = "1", features = ["derive"] }
thiserror = "1"
time = { version = "0.3", features = ["parsing"] }
tokio = { version = "1", features = ["macros", "rt-multi-thread"] }
tui = "0.19"
