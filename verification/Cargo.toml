[package]
name = "squirrel_scanner"
version = "0.1.0"
edition = "2021"
publish = false

[dependencies]
actix-web = { version = "4", default-features = false, features = ["macros"] }
mime = "0.3"
procfs = "*"
rayon = "1"
tokio = { version = "1", features = ["rt-multi-thread", "time", "macros"] }
v4l = "*"
