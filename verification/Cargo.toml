[package]
name = "mygrid"
version = "0.1.0"
edition = "2021"
publish = false

[dependencies]
chrono = "0.4"
md-5 = "0.10"
serde = { version = "1", features = ["derive"] }
serde_json = "1"
glob = "0.3"
toml = "*"
log = "0.4"
trig = "*"
ureq = "3"
