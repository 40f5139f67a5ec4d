[package]
name = "blog_api"
version = "0.1.0"
edition = "2021"
publish = false

[dependencies]
async-graphql = { version = "=4.0.16", features = ["chrono"] }
axum = "=0.5.17"
chrono = "=0.4.45"
sqlx = { version = "=0.6.3", default-features = false, features = ["runtime-tokio-rustls", "mysql", "chrono"] }
tokio = { version = "=1.53.2", features = ["macros", "rt-multi-thread"] }
tower-http = { version = "=0.3.5", features = ["cors"] }
