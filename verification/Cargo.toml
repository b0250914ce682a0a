[package]
name = "kalshi_terminal"
version = "0.1.0"
edition = "2021"
publish = false

[dependencies]
anyhow = "1"
base64 = "=0.22.1"
chrono = { version = "0.4", default-features = false, features = ["std", "now", "serde"] }
dotenvy = "0.15"
eframe = { version = "0.37", default-features = false, features = ["default_fonts", "glow", "x11"] }
egui_plot = "0.38"
futures-util = { version = "0.3", default-features = false, features = ["sink", "std"] }
reqwest = { version = "0.12", default-features = false, features = ["json", "rustls-tls"] }
rkyv = { version = "0.8", default-features = false, features = ["std"] }
rsa = { version = "=0.9.10", features = ["sha2", "getrandom"] }
serde = { version = "1", features = ["derive"] }
serde_json = "1"
sha2 = "=0.10.9"
tokio = { version = "1", features = ["rt-multi-thread", "macros", "sync", "time", "net"] }
tokio-tungstenite = { version = "*", features = ["rustls-tls-webpki-roots"] }
