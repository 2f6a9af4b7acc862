[package]
name = "saucepan"
version = "0.1.0"
edition = "2021"
publish = false

[dependencies]
bytecount = "0.6"
memchr = "2"
serde = { version = "1", features = ["derive"] }
codespan-reporting = "0.11"
nom = "7"
nom_locate = "4"
