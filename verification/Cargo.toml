[package]
name = "king"
version = "0.1.0"
edition = "2021"
publish = false

[dependencies]
unicode-segmentation = "1"
unicode-width = "0.1"
ncurses = "6"
libc = "0.2"
