[package]
name = "pdf_strings"
version = "0.1.0"
edition = "2021"
publish = false

[dependencies]
adobe-cmap-parser = "*"
clap = { version = "4", features = ["derive"] }
encoding_rs = "0.8"
euclid = "*"
lopdf = "*"
tracing = "0.1"
ttf-parser = "*"
type1-encoding-parser = "*"
