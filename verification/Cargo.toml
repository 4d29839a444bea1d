[package]
name = "breaker"
version = "0.1.0"
edition = "2021"
publish = false

[dependencies]
anyhow = "=1.0.104"
macroquad = "=0.4.16"
macroquad-canvas = "=0.4.1"
