[package]
name = "mirua"
version = "0.1.0"
edition = "2021"
publish = false

[dependencies]
flate2 = "1"
glob = "0.3"
log = "0.4"
minreq = { version = "2", features = ["https", "json-using-serde"] }
pbr = "1"
quick-xml = { version = "*", features = ["serialize"] }
serde = { version = "1", features = ["derive"] }
simple_logger = "*"
tar = "0.4"
threadpool = "1"
toml = "*"
zip = { version = "*", default-features = false, features = ["deflate"] }
