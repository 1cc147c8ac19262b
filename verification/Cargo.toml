[package]
name = "rsearch"
version = "0.1.0"
edition = "2021"
publish = false

[dependencies]
crossbeam = "*"
once_cell = "*"
pdfium-render = "*"
quick-xml = "*"
regex = "*"
rusqlite = { version = "*", features = ["bundled"] }
tracing = "*"
tracing-appender = "*"
tracing-subscriber = "*"
walkdir = "*"
zip = "*"
