[package]
name = "sqs_executor"
version = "0.1.0"
edition = "2021"
publish = false

[dependencies]
uuid = { version = "=1.27.0", features = ["v4"] }
dgraph_query_lib = "=0.1.0"

[dev-dependencies]
serde_json = "1"
