[package]
name = "k_edit_distance"
version = "0.1.0"
edition = "2021"
publish = false

[dependencies]
unicode-normalization = "*"
unicode-segmentation = "*"
