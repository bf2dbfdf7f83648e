[package]
name = "pollkeeper"
version = "0.1.0"
edition = "2021"
publish = false

[dependencies]
chrono = { version = "0.4", features = ["serde"] }
fancy-regex = "0.11"
ferris-says = "0.2"
getopts = "0.2"
magic-crypt = "3.1"
once_cell = "1"
serde = { version = "1", features = ["derive"] }
serde_derive = "1"
serde_json = "1"
serenity = "0.11"
sled = "0.34"
tokio = { version = "1", features = ["macros", "rt-multi-thread", "time"] }
toml = "0.5"
tracing = "0.1"
