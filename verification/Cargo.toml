[package]
name = "ktu_timetable"
version = "0.1.0"
edition = "2021"
publish = false

[dependencies]
chrono = "=0.4.45"
ical = "=0.11.0"
lazy-regex = "=2.5.0"
ureq = "=2.12.1"
serde = { version = "=1.0.229", features = ["derive"] }
toml = "=0.5.11"
directories-next = "=2.0.0"
egui = "=0.20.1"
lazy_static = "=1.5.1"
image = { version = "0.24", default-features = false, features = ["png"] }
