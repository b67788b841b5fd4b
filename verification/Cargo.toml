[package]
name = "csv_tasks"
version = "0.1.0"
edition = "2021"
publish = false

[dependencies]
actix-web = "4"
csv = "1"
diesel = { version = "2", features = ["postgres"] }
dotenv = "0.15"
env_logger = "0.11"
handlebars = "5"
lettre = { version = "0.11", default-features = false, features = ["builder", "smtp-transport", "pool", "rustls-tls"] }
mime_guess = "2"
serde = { version = "1", features = ["derive"] }
serde_json = "1"
ssh2 = "0.9"
tempdir = "0.3"
utoipa = { version = "4", features = ["actix_extras"] }
utoipa-swagger-ui = { version = "6", features = ["actix-web"] }
uuid = { version = "1", features = ["v4"] }
xlsxwriter = "0.6"
