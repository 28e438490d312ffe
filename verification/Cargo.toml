[package]
name = "glyph_console"
version = "0.1.0"
edition = "2021"
publish = false

[dependencies]
rand = "0.8"
sdl2 = { version = "*", features = ["image"] }
fps_counter = "*"
