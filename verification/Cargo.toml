[package]
name = "lance_compound"
version = "0.1.0"
edition = "2021"
publish = false

[dependencies]
arrow-array = "=58.4.1"
arrow-row = "=58.4.1"
arrow-schema = "=58.4.1"
arrow-select = "=58.4.1"
async-trait = "0.1"
chrono = "0.4"
datafusion-common = { version = "=53.1.0", default-features = false }
deepsize = "0.2"
futures = "0.3"
lance-core = { version = "=6.1.0", default-features = false }
object_store = { version = "0.12", default-features = false }
prost-types = "0.14"
roaring = "=0.11.5"
serde = { version = "1", features = ["derive"] }
serde_json = "1"
tokio = { version = "1", features = ["sync"] }
uuid = { version = "=1.29.0", features = ["v4"] }
