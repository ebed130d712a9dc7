[package]
name = "genetic_framework"
version = "0.1.0"
edition = "2021"
publish = false

[dependencies]
anyhow = "1"
clap = { version = "4", features = ["derive"] }
indicatif = "0.17"
inquire = "0.7"
log = "0.4"
rand = "0.8"
random_choice = "0.3"
rayon = "1"
serde = { version = "1", features = ["derive"] }
serde_json = "1"
strum = "0.26"
strum_macros = "0.26"
