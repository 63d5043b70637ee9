[package]
name = "patent_hub"
version = "0.1.0"
edition = "2021"
publish = false

[dependencies]
serde_json = "1"
regex = "1"
serde = { version = "1", features = ["derive"] }
anyhow = "1"
axum = { version = "0.6", features = ["multipart"] }
tower-http = { version = "0.4", features = ["cors", "fs", "set-header"] }
tokio = { version = "1", features = ["full"] }
reqwest = { version = "0.11", features = ["json"] }
rusqlite = { version = "0.29", features = ["bundled"] }
tracing = "0.1"
tracing-subscriber = "0.3"
chrono = "0.4"
uuid = { version = "1", features = ["v4"] }
urlencoding = "2"
mime_guess = "2"
rust-embed = "8"
dotenvy = "0.15"
base64 = "0.21"
async-stream = "0.3"
futures = "0.3"
encoding_rs = "0.8"
zip = { version = "0.6", default-features = false, features = ["deflate"] }
pdf-extract = "0.7"
rust_xlsxwriter = "*"
local-ip-address = "*"
open = "5"
