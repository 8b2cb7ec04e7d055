[package]
name = "onu_admin"
version = "0.1.0"
edition = "2021"
publish = false

[dependencies]
anyhow = "1"
axum = "0.7"
base32 = "0.4"
clap = { version = "4", features = ["derive"] }
csv = "1"
dotenvy = "0.15"
flexi_logger = "0.29"
hmac = "0.12"
log = "0.4"
reqwest = { version = "0.12", default-features = false }
select = "0.6"
serde = { version = "1", features = ["derive"] }
serde_json = "1"
sha1 = "0.10"
tabled = "0.15"
tokio = { version = "1", features = ["macros", "net", "rt-multi-thread", "sync"] }
