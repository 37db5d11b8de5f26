[package]
name = "task_service"
version = "0.1.0"
edition = "2021"
publish = false

[dependencies]
rusqlite = { version = "0.31", features = ["bundled"] }
actix-web = "4"
actix-cors = "0.7"
serde = { version = "1", features = ["derive"] }
