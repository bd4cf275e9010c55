[package]
name = "media_player"
version = "0.1.0"
edition = "2021"
publish = false

[dependencies]
rayon = "*"
crossbeam-channel = "*"
minifb = "*"
cpal = "*"
ffmpeg-next = "*"
