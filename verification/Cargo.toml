[package]
name = "tosmole"
version = "0.1.0"
edition = "2021"
publish = false

[dependencies]
flate2 = "1"
serde = { version = "1", features = ["derive"] }
serde_json = "1"
quick-xml = { version = "*", features = ["serialize"] }
actix-web = "4"
actix-files = "0.6"
tera = "1"
mesh-tools = "*"
