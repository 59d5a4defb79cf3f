[package]
name = "arcade_shooter"
version = "0.1.0"
edition = "2021"
publish = false

[dependencies]
macroquad = { version = "=0.4.16", features = ["audio"] }
macroquad-particles = "=0.2.2"
miniquad = "=0.4.11"
quad-rand = "=0.2.3"
