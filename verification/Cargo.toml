[package]
name = "cacophony"
version = "0.1.0"
edition = "2021"
publish = false

[dependencies]
aes-gcm = "=0.10.3"
chacha20poly1305 = "=0.10.1"
futures-util = "=0.3.34"
getrandom = "=0.3.4"
ogg = "=0.9.2"
opus-rs = "=0.1.40"
rubato = "2"
serde = { version = "=1.0.229", features = ["derive"] }
serde_json = "=1.0.154"
thiserror = "=2.0.21"
tokio = { version = "=1.54.1", features = ["full"] }
tokio-tungstenite = { version = "=0.28.0", features = ["rustls-tls-webpki-roots"] }
zeroize = "=1.9.1"
