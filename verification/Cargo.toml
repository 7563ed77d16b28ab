[package]
name = "crow_core"
version = "0.1.0"
edition = "2021"
publish = false

[dependencies]
anyhow = "*"
async-trait = "*"
axum = { version = "*", features = ["multipart"] }
bollard = "*"
chrono = { version = "*", features = ["serde"] }
clap = { version = "*", features = ["derive"] }
fern = "*"
log = "*"
mime_guess = "*"
serde = { version = "*", features = ["derive"] }
sha2 = "*"
tokio = { version = "*", features = ["full"] }
tokio-postgres = { version = "*", features = ["with-chrono-0_4"] }
uuid = { version = "*", features = ["v4"] }
