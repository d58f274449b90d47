[package]
name = "floem_views"
version = "0.1.0"
edition = "2021"
publish = false

[dependencies]
unicode-segmentation = "1"
ui-events = "*"
