[package]
name = "frame_extract"
version = "0.1.0"
edition = "2021"
publish = false

[dependencies]
ffms2 = "=0.2.0"
structopt = "=0.3.26"
y4m = "=0.8.0"
