[package]
name = "dualis"
version = "0.1.0"
edition = "2021"
publish = false

[dependencies]
regex = "1"
which = "7"
serde = { version = "1", features = ["derive"] }
serde_json = "1"
tokio = { version = "1", features = ["full"] }
reqwest = { version = "0.12", default-features = false, features = ["rustls-tls", "json", "stream"] }
futures-util = "0.3"
hound = "3"
num-complex = "0.4"
num_cpus = "1"
ort = "2.0.0-rc.10"
parking_lot = "0.12"
realfft = "3"
rubato = "0.16"
rusqlite = { version = "0.32", features = ["bundled"] }
symphonia = { version = "0.5", features = ["all"] }
uuid = { version = "1", features = ["v4"] }
