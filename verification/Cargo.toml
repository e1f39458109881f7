[package]
name = "pathfinder"
version = "0.1.0"
edition = "2021"
publish = false

[dependencies]
pathfinding = "*"
geojson = "*"
georaster = "*"
serde_json = "*"
tiff = "*"
