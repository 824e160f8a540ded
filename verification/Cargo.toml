[package]
name = "librsvg"
version = "0.1.0"
edition = "2021"
publish = false

[dependencies]
cssparser = "=0.38.0"
language-tags = "=0.3.2"
data-url = "=0.3.2"
url = "=2.5.8"
regex = "1"
