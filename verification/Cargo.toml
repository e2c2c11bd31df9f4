[package]
name = "runtime_gateway"
version = "0.1.0"
edition = "2021"
publish = false

[dependencies]
serde = { version = "1", features = ["derive"] }
serde_json = "1"
url = "2"
tokio = { version = "1", features = ["rt-multi-thread", "macros", "time"] }
reqwest = { version = "0.12", default-features = false, features = ["json"] }
actix-web = { version = "4", default-features = false, features = ["macros"] }
actix-files = "0.6"
crossbeam = "0.8"
