[package]
name = "portfolio_stats"
version = "0.1.0"
edition = "2021"
publish = false

[dependencies]
rand = "=0.10.3"
plotly = "=0.14.1"
statrs = "=0.19.1"
faer = "=0.24.4"
nalgebra = "=0.35.0"
argmin = "=0.11.0"
argmin-math = { version = "=0.5.1", features = ["vec"] }
argmin-observer-slog = "=0.2.0"
build_html = "=2.8.0"
tempfile = "=3.27.0"
