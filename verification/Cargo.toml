[package]
name = "bomberman"
version = "0.1.0"
edition = "2021"
publish = false

[dependencies]
tiled = "=0.9.4"
rand = "=0.7.3"
piston = "=0.49.0"
piston2d-graphics = "=0.35.0"
piston2d-opengl_graphics = "=0.69.0"
pistoncore-glutin_window = "=0.63.0"
nphysics2d = "=0.24.0"
