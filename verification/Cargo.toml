[package]
name = "e2e_yaml"
version = "0.1.0"
edition = "2021"
publish = false

[dependencies]
clap = { version = "4", features = ["derive"] }
indexmap = { version = "2", features = ["serde"] }
serde = { version = "1", features = ["derive"] }
serde_yaml = "0.9"
thirtyfour = "*"
tokio = { version = "1", features = ["macros", "rt-multi-thread"] }
