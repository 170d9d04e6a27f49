[package]
name = "held"
version = "0.1.0"
edition = "2021"
publish = false

[dependencies]
crossterm = "=0.27.0"
log = "=0.4.35"
simplelog = "=0.12.2"
regex = "=1.13.1"
unicode-segmentation = "1"
