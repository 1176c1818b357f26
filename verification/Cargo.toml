[package]
name = "lan-mouse"
version = "0.1.0"
edition = "2021"
publish = false

[dependencies]
async-trait = "0.1"
evdev = "0.13"
gtk4 = { version = "0.9", features = ["v4_2"] }
libadwaita = { version = "0.7", features = ["v1_1"] }
log = "0.4"
