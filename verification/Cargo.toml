[package]
name = "agl_slint_cluster"
version = "0.1.0"
edition = "2021"
publish = false

[dependencies]
socketcan = { version = "3", default-features = false }
libc = "0.2"
chrono = "0.4"
tokio = { version = "1", features = ["rt", "time", "net"] }
tonic = { version = "0.14", default-features = false, features = ["channel", "codegen"] }
tonic-prost = "0.14"
prost = "0.14"
