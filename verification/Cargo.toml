[package]
name = "spatialbench_s3"
version = "0.1.0"
edition = "2021"
publish = false

[dependencies]
url = "2"
object_store = { version = "0.12", features = ["aws"] }
tokio = { version = "1", features = ["rt-multi-thread", "sync", "macros"] }
bytes = "1"
