[package]
name = "snakedown"
version = "0.1.0"
edition = "2021"
publish = false

[dependencies]
edit-distance = "=2.2.2"
url = "=2.5.8"
rustpython-parser = "=0.4.0"
nbformat = "=3.0.0"
sphinx_inv = "=0.4.0"
tracing = "=0.1.44"
color-eyre = "=0.6.5"
