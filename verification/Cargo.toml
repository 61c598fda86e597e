[package]
name = "term_style"
version = "0.1.0"
edition = "2021"
publish = false

[dependencies]
ansi_term = "0.12"
ansi_colours = { version = "1", default-features = false }
