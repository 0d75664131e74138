[package]
name = "mdbook_plantuml_renderer"
version = "0.1.0"
edition = "2021"
publish = false

[dependencies]
rust-crypto = "=0.2.36"
mdbook = { version = "=0.4.52", default-features = false }
clap = "=4.6.7"
log = "=0.4.34"
fern = "=0.7.1"
chrono = "=0.4.45"
serde_json = "=1.0.151"
pulldown-cmark = "=0.13.4"
pulldown-cmark-to-cmark = "=23.0.0"
