[package]
name = "rusqlite_gpkg"
version = "0.1.0"
edition = "2021"
publish = false

[dependencies]
wkb = "*"
rusqlite = { version = "*", features = ["bundled", "functions"] }
geo-traits = "*"
geo-types = "*"
wkt = "*"
