[package]
name = "everpuzzle"
version = "0.1.2"
edition = "2021"
publish = false

[dependencies]
oorandom = "=11.1.5"
miniquad = "=0.4.11"
gilrs = "=0.11.2"
png_pong = "=0.12.0"
pix = "=1.0.1"
ultraviolet = "=0.10.0"
miniz_oxide = "=0.9.1"
