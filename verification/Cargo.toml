[package]
name = "fruit_domain"
version = "0.1.0"
edition = "2021"
publish = false

[dependencies]
uuid = { version = "1", features = ["v4"] }
rand = "0.8"
anomalies = "*"
exn = "*"
thiserror = "*"
serde = { version = "1", features = ["derive"] }
serde_bytes = "0.11"
serde_dynamo = { version = "4", features = ["aws-sdk-dynamodb+1"] }
aws-sdk-dynamodb = "1"
aws-smithy-types = "1"
aws-smithy-runtime-api = "1"
tokio = { version = "1", features = ["rt-multi-thread", "macros"] }
async-trait = "0.1"
auto_impl = "*"
bon = "*"

[dev-dependencies]
regex = "1"
