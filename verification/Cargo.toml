[package]
name = "nearby_management"
version = "0.1.0"
edition = "2021"
publish = false

[dependencies]
anyhow = "1"
async-trait = "0.1"
bytes = "1"
futures = "0.3"
napi-ohos = "*"
once_cell = "1"
serde_json = "1"
tokio = { version = "1", features = ["net", "rt-multi-thread", "sync"] }
url = "2"
uuid = "1"
