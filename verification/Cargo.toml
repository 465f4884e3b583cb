[package]
name = "ridesim"
version = "0.1.0"
edition = "2021"
publish = false

[dependencies]
sha2 = "=0.10.9"
serde = { version = "=1.0.229", features = ["derive"] }
serde_json = "=1.0.154"
prost = "=0.14.4"
chrono = "=0.4.45"
clap = { version = "=4.6.7", features = ["derive"] }
tokio = { version = "1", features = ["rt-multi-thread", "macros"] }
lambda_runtime = "*"
aws-config = { version = "1", features = ["behavior-version-latest"] }
aws-sdk-s3 = "1"
aws-sdk-sqs = "1"
aws-sdk-lambda = "1"
arrow = { version = "*", default-features = false }
parquet = { version = "*", default-features = false, features = ["arrow"] }
zip = { version = "*", default-features = false, features = ["deflate"] }
