[package]
name = "csv_lib"
version = "0.1.0"
edition = "2021"
publish = false

[dependencies]
actix-web = "*"
actix-multipart = "*"
clap = { version = "*", features = ["derive"] }
futures-util = "*"
tokio = { version = "*", features = ["sync", "macros", "rt-multi-thread"] }
