[package]
name = "runners_toolkit"
version = "0.1.0"
edition = "2021"
publish = false

[dependencies]
chrono = "=0.4.45"
anyhow = "=1.0.104"
async-trait = "=0.1.92"
serde = { version = "=1.0.229", features = ["derive"] }
reqwest = { version = "=0.13.5", default-features = false, features = ["json"] }
tokio = { version = "=1.53.2", features = ["sync", "time", "rt-multi-thread", "macros"] }
crossterm = "=0.29.0"
ratatui = "=0.30.2"
dotenvy = "=0.15.7"
diesel = { version = "=2.3.13", features = ["postgres", "chrono"] }
