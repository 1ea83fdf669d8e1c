[package]
name = "search_filter"
version = "0.1.0"
edition = "2021"
publish = false

[dependencies]
scraper = "*"
serde_json = "*"
url = "*"
serde = { version = "*", features = ["derive"] }
reqwest = { version = "*", default-features = false }
actix-web = { version = "*", default-features = false, features = ["macros"] }
em_filter = "*"
