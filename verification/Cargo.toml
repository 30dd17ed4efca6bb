[package]
name = "krabmaga"
version = "0.1.0"
edition = "2021"
publish = false

[dependencies]
bevy_app = "0.13"
bevy_core = "0.13"
bevy_ecs = "0.13"
bevy_utils = "0.13"
rand = "0.8"
rayon = "1"
