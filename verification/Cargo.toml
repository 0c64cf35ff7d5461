[package]
name = "chess_prep"
version = "0.1.0"
edition = "2021"
publish = false

[dependencies]
pgn-reader = "0.28"
rusqlite = "0.37"
shakmaty = "0.29"
