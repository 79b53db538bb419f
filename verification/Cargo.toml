[package]
name = "audio_worker"
version = "0.1.0"
edition = "2021"
publish = false

[dependencies]
aws-config = { version = "1", features = ["behavior-version-latest"] }
aws-sdk-s3 = { version = "1", features = ["behavior-version-latest"] }
dotenv = "0.15"
futures-lite = "2"
hound = "3.5"
lapin = "3.7"
reqwest = { version = "0.12", default-features = false, features = ["rustls-tls"] }
serde = { version = "1", features = ["derive"] }
serde_json = "1"
symphonia = "0.5"
tokio = { version = "1", features = ["macros", "rt-multi-thread"] }
