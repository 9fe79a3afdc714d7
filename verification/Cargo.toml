[package]
name = "obs_mock"
version = "0.1.0"
edition = "2021"
publish = false

[dependencies]
md-5 = "*"
base16ct = { version = "*", features = ["alloc"] }
base64ct = { version = "*", features = ["alloc"] }
rand = "*"
wiremock = "*"
tokio = { version = "*", features = ["full"] }
http = "*"
quick-xml = { version = "*", features = ["serialize"] }
serde = { version = "*", features = ["derive"] }
