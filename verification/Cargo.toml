[package]
name = "ras_viewer"
version = "0.1.0"
edition = "2021"
publish = false

[dependencies]
anyhow = "*"
eframe = { version = "*", default-features = false, features = ["glow", "x11", "default_fonts"] }
flate2 = "*"
nifti = "*"
