[package]
name = "ems_geotechnical"
version = "0.1.0"
edition = "2021"
publish = false

[dependencies]
cgmath = "0.18"
plotters = { version = "0.3", default-features = false, features = ["svg_backend", "line_series"] }
rust_decimal = { version = "1", default-features = false, features = ["std", "maths"] }

[dev-dependencies]
approx = "0.5"
