[package]
name = "smtpbis"
version = "0.1.0"
edition = "2021"
publish = false

[dependencies]
rustyknife = "*"
tokio = { version = "*", features = ["rt", "net", "io-util", "macros", "time"] }
tokio-rustls = "*"
async-trait = "*"
bytes = "*"
rustls-pemfile = "*"
