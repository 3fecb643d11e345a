[package]
name = "ultrasonic"
version = "0.1.0"
edition = "2021"
publish = false

[dependencies]
zk-aluvm = "*"
amplify = "*"
baid64 = "*"
commit_verify = "*"
strict_encoding = "*"
serde = { version = "1", features = ["derive"] }

[dev-dependencies]
sha2 = "*"
