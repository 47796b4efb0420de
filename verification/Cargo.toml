[package]
name = "tg"
version = "0.1.0"
edition = "2021"
publish = false

[dependencies]
anyhow = "=1.0.104"
bpaf = { version = "=0.9.28", features = ["derive"] }
confy = "=2.0.0"
ctrlc = "=3.5.2"
directories = "=6.0.0"
fuse_mt = "=0.6.4"
log = "=0.4.34"
rusqlite = { version = "=0.40.2", features = ["bundled"] }
serde = { version = "=1.0.229", features = ["derive"] }
simple_logger = "=5.2.0"
