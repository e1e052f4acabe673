[package]
name = "curvas"
version = "0.1.0"
edition = "2021"
publish = false

[dependencies]
csv = "1"
geographiclib-rs = "*"
libm = "0.2"
shapefile = "*"
