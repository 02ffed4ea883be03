[package]
name = "game_of_life"
version = "0.1.0"
edition = "2021"
publish = false

[dependencies]
crossbeam = "=0.8.5"
parking_lot = "=0.12.5"
rand = "=0.8.8"
eframe = { version = "=0.22.0", default-features = false, features = ["glow", "default_fonts"] }
image = { version = "=0.24.9", default-features = false, features = ["ico"] }
rfd = { version = "0.12", default-features = false, features = ["xdg-portal"] }
