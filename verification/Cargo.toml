[package]
name = "gk4"
version = "0.1.0"
edition = "2021"
publish = false

[dependencies]
cgmath = "0.18"
egui = "0.33"
egui_glium = "0.33"
glium = "0.36"
image = { version = "0.25", default-features = false, features = ["png", "jpeg"] }
tobj = "4.0"
