[package]
name = "blind_index"
version = "0.1.0"
edition = "2021"
publish = false

[dependencies]
rand = "=0.7.3"
sha2 = "=0.8.2"
unicode-segmentation = "=1.13.3"
unidecode = "=0.3.0"

[dev-dependencies]
itertools = "=0.9.0"
