[package]
name = "can_tracer"
version = "0.1.0"
edition = "2021"
publish = false

[dependencies]
ecu_diagnostics = { version = "=0.107.5", default-features = false, features = ["passthru"] }
eframe = "=0.16.0"
egui = "=0.16.1"
iced = { version = "=0.3.0", default-features = false, features = ["glow"] }
libloading = "=0.9.0"
