[package]
name = "sphenic_biaxe"
version = "0.1.0"
edition = "2021"
publish = false

[dependencies]
colorous = { version = "=1.0.16", default-features = false }
rand = { version = "=0.9.5", default-features = false, features = ["std_rng"] }
web-time = "=1.1.0"
egui = { version = "=0.31.1", features = ["serde"] }
eframe = { version = "=0.31.1", default-features = false, features = ["default_fonts", "glow", "persistence", "x11"] }
serde = { version = "=1.0.229", features = ["derive"] }
