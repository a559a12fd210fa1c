[package]
name = "pustaka"
version = "0.1.0"
edition = "2021"
publish = false

[dependencies]
strsim = "=0.11.1"
walkdir = "=2.5.0"
zip = { version = "=9.1.0", default-features = false, features = ["deflate"] }
unrar = "=0.5.8"
image = { version = "=0.25.10", default-features = false, features = ["jpeg", "png", "gif", "bmp"] }
dotenv = "=0.15.0"
diesel = { version = "=2.3.14", default-features = false, features = ["sqlite", "r2d2", "chrono"] }
chrono = { version = "=0.4.45", default-features = false, features = ["std", "serde"] }
serde = { version = "=1.0.229", features = ["derive"] }
actix-web = { version = "=4.18.1", default-features = false, features = ["macros"] }
mime = "=0.3.17"
epub = "=2.1.5"
