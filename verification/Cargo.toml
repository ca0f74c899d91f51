[package]
name = "familyline_server"
version = "0.1.0"
edition = "2021"
publish = false

[dependencies]
chrono = "0.4"
rand = "0.8"
flatbuffers = "0.8"
regex = "1"
serde = { version = "1", features = ["derive"] }
serde_json = "1"
tokio = { version = "1", features = ["full"] }
warp = "0.3"
futures = "0.3"
pnet = "*"
vecfold = "*"
