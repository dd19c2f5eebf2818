[package]
name = "space"
version = "0.1.0"
edition = "2021"
publish = false

[dependencies]
rand = "0.8"
metrics = "0.24"
metrics-util = "0.20"
egui_plot = "0.34"
