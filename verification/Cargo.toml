[package]
name = "dyn_bindgen"
version = "0.1.0"
edition = "2021"
publish = false

[dependencies]
md5 = "=0.8.1"
hex = "=0.4.3"
anyhow = "=1.0.104"
bindgen = "=0.73.2"
libloading = "=0.9.0"
