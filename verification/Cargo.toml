[package]
name = "oss_client"
version = "0.1.0"
edition = "2021"
publish = false

[dependencies]
configparser = "*"
aws-sdk-s3 = "*"
aws-smithy-types = "*"
aws-smithy-http = "*"
tokio = { version = "*", features = ["rt-multi-thread", "macros", "fs"] }
futures = "*"
clap = "*"
walkdir = "*"
