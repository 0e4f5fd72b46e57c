[package]
name = "archet"
version = "0.1.0"
edition = "2021"
publish = false

[dependencies]
serde = { version = "1", features = ["derive"] }
egui = { version = "0.35", default-features = false }
egui_extras = { version = "0.35", default-features = false }
nice-plug = "=0.1.10"
nice-plug-egui = "=0.2.0"

[dev-dependencies]
serde_json = "1"
