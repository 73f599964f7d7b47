[package]
name = "lunar_lander"
version = "0.1.0"
edition = "2021"
publish = false

[dependencies]
rand = "0.8"
noise = "0.8"
macroquad = "0.4"
macroquad-text = "*"
rusty_audio = "*"
