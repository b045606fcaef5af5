[package]
name = "norad"
version = "0.1.0"
edition = "2021"
publish = false

[dependencies]
quick-xml = "0.23"
plist = "1"
serde = { version = "1", features = ["derive"] }
indexmap = "2"
close_already = "*"
kurbo = "*"
rayon = "1"
thiserror = "1"
