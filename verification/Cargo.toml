[package]
name = "rust_inst"
version = "0.1.0"
edition = "2021"
publish = false

[dependencies]
time = "0.1"
serde = { version = "1", features = ["derive"] }
bincode = "1"
toml = "*"
dirs = "*"
state = "*"
mio = { version = "*", features = ["net", "os-poll"] }
r2d2 = "*"
r2d2_sqlite = { version = "*", features = ["bundled"] }
