[package]
name = "robo_quest"
version = "0.1.0"
edition = "2021"
publish = false

[dependencies]
nphysics2d = "=0.24.0"
ncollide2d = "=0.32.0"
nalgebra = "=0.29.0"
serde = "=1.0.229"
serde_json = "=1.0.151"
serde_derive = "=1.0.229"
