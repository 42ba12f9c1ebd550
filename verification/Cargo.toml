[package]
name = "mote_shell"
version = "0.1.0"
edition = "2021"
publish = false

[dependencies]
clearurls = "*"
psl = "2"
url = "2"
serde = { version = "1", features = ["derive"] }
serde_json = "1"
arboard = "3"
winit = "0.30"
