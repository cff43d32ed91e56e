[package]
name = "totality"
version = "0.1.0"
edition = "2021"
publish = false

[dependencies]
lazy_static = "=1.5.1"
log = "=0.4.35"
nalgebra = "=0.35.0"
simple_logger = "4"
thiserror = "1"
vulkano = "0.34"
winit = { version = "0.29", default-features = false, features = ["x11", "rwh_05"] }
