[package]
name = "symbolica_license"
version = "0.1.0"
edition = "2021"
publish = false

[dependencies]
data-encoding = "2"
directories = "6"
ed25519-compact = "2"
once_cell = "1"
rayon = "1"
tinyjson = "2"
