[package]
name = "alphatab_rs"
version = "0.1.0"
edition = "2021"
publish = false

[dependencies]
guitarpro = "*"
smufl = "*"
resvg = "*"
svg2pdf = "*"
