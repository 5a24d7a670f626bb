[package]
name = "netlight"
version = "0.1.0"
edition = "2021"
publish = false

[dependencies]
atoi = "2"
url = "2"
rgb = "0.8"
embedded-svc = "0.26"
esp-idf-hal = "0.42"
esp-idf-svc = "0.47"
esp-idf-sys = "0.33"
toml-cfg = "0.1"
