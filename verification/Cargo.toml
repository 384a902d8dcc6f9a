[package]
name = "bandurria"
version = "1.4.0"
edition = "2021"
publish = false

[dependencies]
base64-url = "*"
chrono = { version = "0.4", default-features = false, features = ["clock", "std"] }
clap = { version = "4", features = ["std", "cargo"] }
hex = "0.4"
hmac = "0.12"
lazy_static = "1"
lettre = { version = "0.11", default-features = false, features = ["smtp-transport", "builder", "hostname", "rustls-tls"] }
linkify = "*"
log = "0.4"
reqwest = { version = "0.12", default-features = false, features = ["rustls-tls"] }
rocket = { version = "0.5", features = ["json"] }
rocket_db_pools = { version = "0.2", features = ["sqlx_mysql"] }
rocket_dyn_templates = { version = "0.2", features = ["handlebars"] }
serde = { version = "1", features = ["derive"] }
sha2 = "0.10"
uuid = { version = "1", features = ["v4"] }
validator = { version = "*", features = ["derive"] }

[dev-dependencies]
regex = "1"
