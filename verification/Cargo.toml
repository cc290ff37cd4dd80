[package]
name = "ceiling_rt"
version = "0.1.0"
edition = "2021"
publish = false

[dependencies]
cast = { version = "0.2.2", default-features = false }
cortex-m = "0.2"
cortex-m-rt = "0.2.0"
cortex-m-rtfm = "0.1.0"
f3 = "0.4"
