[package]
name = "interstellar_writer_astro"
version = "1.1.0"
edition = "2021"
publish = false

[dependencies]
serde = { version = "1", features = ["derive"] }
serde_yaml = "0.9"
chrono = "0.4"
confy = "0.6"
walkdir = "2.5"
anyhow = "1.0"
git2 = "0.19"
