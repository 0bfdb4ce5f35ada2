[package]
name = "minio"
version = "0.1.0"
edition = "2021"
publish = false

[dependencies]
aws-config = "*"
aws-sdk-s3 = "*"
aws-smithy-async = "*"
tokio = { version = "*", features = ["rt", "sync", "io-util"] }
