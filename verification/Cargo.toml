[package]
name = "jp_plateau_tool"
version = "0.1.0"
edition = "2021"
publish = false

[dependencies]
clap = { version = "=4.6.7", features = ["derive"] }
crossbeam = "=0.8.5"
geojson = { version = "=0.24.2", default-features = false }
num_cpus = "=1.17.0"
quick-xml = "=0.31.0"
serde_json = "=1.0.154"
zip = { version = "=9.1.0", default-features = false, features = ["deflate"] }
