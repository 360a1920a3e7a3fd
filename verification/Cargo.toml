[package]
name = "huepick"
version = "0.1.0"
edition = "2021"
publish = false

[dependencies]
palette = "0.7"
image = "0.24"
color-thief = "0.2"
