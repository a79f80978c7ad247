[package]
name = "keyboard_layout_generator"
version = "0.1.0"
edition = "2021"
publish = false

[dependencies]
rand = "=0.8.8"
rayon = "=1.12.0"
clap = { version = "=4.6.7", features = ["derive"] }
