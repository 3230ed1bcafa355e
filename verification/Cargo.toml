[package]
name = "file_to_html"
version = "0.1.0"
edition = "2021"
publish = false

[dependencies]
zip = { version = "2", default-features = false, features = ["aes-crypto", "deflate"] }
base64 = "*"
rand = "*"
chrono = { version = "*", default-features = false, features = ["clock"] }
clap = { version = "*", features = ["derive"] }
dialoguer = "*"
log = "*"
env_logger = "*"
indicatif = "*"
jwalk = "*"
