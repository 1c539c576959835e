[package]
name = "gravity_wars"
version = "0.1.0"
edition = "2021"
publish = false

[dependencies]
nalgebra = "=0.30.1"
ncollide2d = "=0.33.0"
num-complex = "=0.4.6"
rand = "=0.6.5"
serde_json = "1"
