[package]
name = "rofi_games"
version = "0.1.0"
edition = "2021"
publish = false

[dependencies]
dirs = "*"
lib_game_detector = "*"
regex = "*"
serde = { version = "*", features = ["derive"] }
toml = "*"
tracing = "*"
