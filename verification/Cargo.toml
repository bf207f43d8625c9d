[package]
name = "pion"
version = "0.1.0"
edition = "2021"
publish = false

[dependencies]
bumpalo = "*"
smallvec = "*"
text-size = "*"
pretty = "*"
codespan-reporting = "*"
clap = { version = "*", features = ["derive"] }
camino = "*"
internal-iterator = "*"
