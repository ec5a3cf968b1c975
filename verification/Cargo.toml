[package]
name = "noise"
version = "0.1.0"
edition = "2021"
publish = false

[dependencies]
rand = "0.8"
ketos = "0.12"
rustc-serialize = "0.3"
notify = "4"
piston = "1.0"
piston2d-graphics = "0.45"
pistoncore-glutin_window = "0.73"
piston2d-opengl_graphics = "0.89"
gl = "0.14"
cgmath = "0.18"
