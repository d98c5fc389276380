[package]
name = "your_game_of_life"
version = "0.1.0"
edition = "2021"
publish = false
