[package]
name = "parakeet_eou"
version = "0.1.0"
edition = "2021"
publish = false

[dependencies]
ndarray = "=0.17.2"
ort = { version = "=2.0.0-rc.12", default-features = false, features = ["std", "ndarray", "load-dynamic", "api-24"] }
realfft = "=3.5.1"
tokenizers = { version = "=0.22.2", default-features = false, features = ["fancy-regex"] }
