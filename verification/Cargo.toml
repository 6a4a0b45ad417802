[package]
name = "transport_io"
version = "0.1.0"
edition = "2021"
publish = false

[dependencies]
macroquad = "0.4"
pathfinding = "4"
serde = { version = "1", features = ["derive"] }
ron = "0.8"
directories = "5"
quad-storage = "0.1"
macroquad-profiler = "0.2"
