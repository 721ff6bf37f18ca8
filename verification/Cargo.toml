[package]
name = "starmod"
version = "0.1.0"
edition = "2021"
publish = false

[dependencies]
camino = "1"
fuzzy-matcher = "0.3"
anyhow = "1"
clap = { version = "4", features = ["derive"] }
clap_complete = "4"
comfy-table = "7"
dirs = "5"
encoding_rs_io = "0.1"
flate2 = "1"
flexi_logger = "0.27"
indicatif = "0.17"
inquire = "0.7"
log = "0.4"
rayon = "1"
ron = "0.8"
serde = { version = "1", features = ["derive"] }
serde_json = "1"
sevenz-rust = "*"
tar = "0.4"
term_size = "0.3"
thiserror = "1"
toml = "0.8"
walkdir = "2"
xdg = "2"
zip = { version = "7", default-features = false }
fomod = "*"
unrar = "*"
lzma = "*"
