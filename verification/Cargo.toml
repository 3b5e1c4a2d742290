[package]
name = "sentence_segmentation"
version = "0.1.0"
edition = "2021"
publish = false

[dependencies]
unicode-segmentation = "1"
rayon = "1"
