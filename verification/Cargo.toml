[package]
name = "graph_gateway"
version = "0.1.0"
edition = "2021"
publish = false

[dependencies]
serde_json = "*"
handlebars = "*"
jsonwebtoken = "*"
reqwest = { version = "*", default-features = false, features = ["blocking"] }
serde = { version = "*", features = ["derive"] }
graphql-parser = "*"
mongodb = "*"
tokio = { version = "*", features = ["macros", "rt-multi-thread"] }
