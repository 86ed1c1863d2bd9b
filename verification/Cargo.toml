[package]
name = "bcdown"
version = "0.2.2"
edition = "2021"
publish = false

[dependencies]
base64 = "=0.13.1"
chrono = { version = "=0.4.45", default-features = false, features = ["clock"] }
clap = "=3.2.25"
colorful = "=0.2.2"
ctrlc = "=3.5.2"
directories = "=4.0.1"
epub-builder = "=0.5.0"
futures = "=0.3.34"
indicatif = "=0.17.11"
md5 = "=0.7.0"
paris = "=1.5.15"
printpdf = { version = "=0.5.3", features = ["embedded_images"] }
qrcode = { version = "=0.12.0", default-features = false }
reqwest = { version = "=0.11.27", default-features = false, features = ["json", "rustls-tls"] }
serde = { version = "=1.0.229", features = ["derive"] }
serde_json = "=1.0.154"
tokio = { version = "=1.54.1", features = ["full"] }
toml = "=0.5.11"
zip = { version = "=0.6.6", default-features = false, features = ["deflate"] }
