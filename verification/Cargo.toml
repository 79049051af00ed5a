[package]
name = "game_of_life"
version = "0.1.0"
edition = "2021"
publish = false

[dependencies]
cursive = "=0.21.1"
itertools = "=0.15.0"
rand = "=0.8.8"
sdl2 = "=0.38.0"
