[package]
name = "wat"
version = "0.1.0"
edition = "2021"
publish = false

[dependencies]
globset = "0.4"
lexopt = "0.3"
notify-debouncer-mini = "0.4"
serde = { version = "1", features = ["derive"] }
toml = "0.8"
