[package]
name = "ode_chart"
version = "0.1.0"
edition = "2021"
publish = false

[dependencies]
rand = "0.8"
iced = { version = "0.8", features = ["canvas"] }
plotters = { version = "0.3", default-features = false, features = ["line_series"] }
plotters-backend = "0.3"
plotters-iced = "0.7"
