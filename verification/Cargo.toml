[package]
name = "pathtrace"
version = "0.1.0"
edition = "2021"
publish = false

[dependencies]
rand = "=0.9.5"
rayon = "=1.12.0"
load_image = "=3.5.0"
softfloat = "=1.0.0"
libm = "=0.2.16"
rustc_apfloat = "=0.2.3"
