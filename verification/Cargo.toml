[package]
name = "novel_cli"
version = "0.1.0"
edition = "2021"
publish = false

[dependencies]
anyhow = "1"
clap = { version = "4", features = ["derive"] }
console = "=0.16.6"
fluent-templates = "*"
image = { version = "*", default-features = false }
libc = "0.2"
pulldown-cmark = { version = "=0.13.5", default-features = false }
rayon = "=1.12.0"
sanitize-filename = "=0.6.0"
serde = { version = "1", features = ["derive"] }
serde_yaml = "=0.9.34"
simdutf8 = "=0.1.5"
strum = { version = "*", features = ["derive"] }
tokio = { version = "1", features = ["rt-multi-thread", "signal", "macros"] }
tracing = "0.1"
trash = "*"
url = "2"
