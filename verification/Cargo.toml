[package]
name = "magictax"
version = "0.1.0"
edition = "2021"
publish = false

[dependencies]
cocoon = "*"
serde = { version = "*", features = ["derive"] }
serde_json = "*"
handlebars = "*"
minify-html = "*"
chrono = "*"
