[package]
name = "python_provision"
version = "0.1.0"
edition = "2021"
rust-version = "1.95"
publish = false

[dependencies]
itertools = "=0.14.0"
pathdiff = "=0.2.3"
fs-err = "=3.3.2"
tracing = "=0.1.44"
self-replace = "=1.5.0"
uv-small-str = "<0.0.33"
uv-shell = "<0.0.33"
uv-version = "<0.11"
uv-fs = "<0.0.33"
uv-pep440 = "<0.0.33"
