[package]
name = "yugioh_deck_builder"
version = "0.1.0"
edition = "2021"
publish = false

[dependencies]
anyhow = "=1.0.104"
eframe = { version = "0.24", default-features = false, features = ["default_fonts", "glow", "x11"] }
egui_extras = { version = "0.24", features = ["image"] }
image = { version = "=0.24.9", default-features = false, features = ["jpeg", "png"] }
poll-promise = "=0.2.1"
reqwest = { version = "=0.11.27", features = ["blocking"] }
serde = { version = "=1.0.229", features = ["derive"] }
serde_json = "=1.0.154"
wildmatch = "=2.7.0"
