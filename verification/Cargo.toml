[package]
name = "inertia"
version = "0.1.0"
edition = "2021"
publish = false

[dependencies]
egui = "=0.29.1"
egui_glium = "=0.29.0"
glium = "=0.36.0"
glutin = "=0.32.3"
glutin-winit = "=0.5.0"
gl = "=0.14.0"
image = { version = "=0.25.10", default-features = false, features = ["png", "jpeg"] }
num = "=0.4.3"
rand = "=0.8.8"
