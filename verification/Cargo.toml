[package]
name = "trace_reader"
version = "0.1.0"
edition = "2021"
publish = false

[dependencies]
anyhow = "1"
chrono = "0.4"
clap = { version = "4", features = ["derive"] }
crossterm = "0.28"
flatbuffers = "24"
plotters = { version = "0.3", default-features = false, features = ["svg_backend", "line_series", "point_series"] }
ratatui = "0.29"
rdkafka = "0.36"
strum = { version = "0.26", features = ["derive"] }
tokio = { version = "1", features = ["full"] }
tracing = "0.1"
tui-input = "0.11"
