[package]
name = "paste_core"
version = "0.1.0"
edition = "2021"
publish = false

[dependencies]
axum = { version = "*", default-features = false, features = ["json"] }
rusqlite = "*"
rusqlite_migration = "*"
serde = { version = "1", features = ["derive"] }
syntect = { version = "5", default-features = false, features = ["default-fancy"] }
thiserror = "*"
tokio = { version = "1", features = ["rt"] }
