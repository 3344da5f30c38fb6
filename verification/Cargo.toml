[package]
name = "imgcatr"
version = "0.1.0"
edition = "2021"

[dependencies]
image = { version = "*", default-features = false, features = ["png", "jpeg", "gif", "webp", "pnm", "tiff", "tga", "bmp", "ico", "hdr"] }
clap = "*"
term_size = "*"
