[package]
name = "synth_dsl"
version = "0.1.0"
edition = "2021"
publish = false

[dependencies]
byteorder = "1"
bytes = "1"
cpal = "*"
derive_builder = "*"
hound = "3"
nodi = "*"
rand = "0.8"
rand_distr = "0.4"
serde = { version = "1", features = ["derive"] }
thiserror = "*"
tokio = { version = "1", features = ["full"] }
