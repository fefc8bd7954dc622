[package]
name = "lgtv_controller"
version = "0.1.0"
edition = "2021"
publish = false

[dependencies]
tokio = { version = "*", features = ["macros", "rt-multi-thread", "sync", "time", "fs", "io-util"] }
lg-webos-client = "*"
tokio-tungstenite = "*"
futures-util = "*"
nix = { version = "*", features = ["fs"] }
home = "*"
