[package]
name = "onto_studio"
version = "0.1.0"
edition = "2021"
publish = false

[dependencies]
regex = "=1.13.1"
oxigraph = { version = "=0.5.13", default-features = false }
jieba-rs = "=0.11.0"
sqlite-chinese-stopword = "=0.1.0"
sqlite-english-stemmer = "=0.1.0"
serde_json = "=1.0.154"
uuid = { version = "=1.29.0", features = ["v4"] }
getrandom = "=0.4.3"
rusqlite = { version = "=0.39.0", features = ["bundled"] }
rusqlite-ext = "=0.39.0"
serde = { version = "=1.0.229", features = ["derive"] }
thiserror = "=2.0.21"
anyhow = "=1.0.104"
