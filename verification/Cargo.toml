[package]
name = "tokio_seqpacket"
version = "0.1.0"
edition = "2021"
publish = false

[dependencies]
filedesc = "*"
libc = "0.2"
socket2 = { version = "0.5", features = ["all"] }
tokio = { version = "1", features = ["net", "rt"] }
