[package]
name = "tiltr"
version = "0.1.0"
edition = "2021"
publish = false

[dependencies]
btleplug = "*"
clap = "*"
reqwest = { version = "*", default-features = false, features = ["json"] }
serde = { version = "*", features = ["derive"] }
serde_json = "*"
tokio = { version = "*", features = ["macros", "rt", "time"] }
uuid = "*"
