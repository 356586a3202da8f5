[package]
name = "wordle"
version = "0.1.0"
edition = "2021"
publish = false

[dependencies]
chrono = "*"
crossterm = "*"
directories = "*"
postcard = { version = "*", default-features = false, features = ["use-std"] }
ratatui = "*"
reqwest = { version = "*", default-features = false, features = ["json"] }
serde = { version = "*", features = ["derive"] }
tokio = { version = "*", features = ["rt", "macros"] }
