[package]
name = "aws-rds-signer"
version = "0.1.0"
edition = "2021"
publish = false

[dependencies]
aws-config = "1"
aws-credential-types = "1"
aws-sigv4 = "1"
url = "2"

[dev-dependencies]
hmac = "0.12"
sha2 = "0.10"
