[package]
name = "nested_polygon"
version = "0.1.0"
edition = "2021"
publish = false

[dependencies]
cordic = "*"
fixed = "*"
glium = "*"
