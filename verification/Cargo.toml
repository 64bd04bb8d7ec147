[package]
name = "invaders"
version = "0.1.0"
edition = "2021"
publish = false

[dependencies]
rusty_time = "=1.1.0"
rodio = { version = "=0.23.0", default-features = false, features = ["playback", "wav"] }
crossterm = "=0.29.0"
serde = { version = "=1.0.229", features = ["derive"] }
serde_json = "=1.0.154"
reqwest = { version = "=0.13.5", default-features = false }
tokio = { version = "=1.54.1", features = ["macros", "rt-multi-thread"] }
dotenv = "=0.15.0"
