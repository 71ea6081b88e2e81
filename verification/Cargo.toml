[package]
name = "price_oracle"
version = "0.1.0"
edition = "2021"
publish = false

[dependencies]
async-trait = "0.1"
base64 = "0.13"
bigdecimal = { version = "0.3", features = ["serde"] }
chrono = "0.4"
config = "*"
duration-string = "*"
futures = "0.3"
num-bigint = "0.4"
pepe-config = "*"
pepe-log = "*"
prost = "0.11"
reqwest = { version = "0.11", features = ["json"] }
serde = { version = "1", features = ["derive"] }
slog-extlog-derive = "*"
thiserror = "1"
tokio = { version = "1", features = ["full"] }
