[package]
name = "rbm"
version = "0.1.0"
edition = "2021"
publish = false

[dependencies]
actix = "0.10"
actix-web = "3"
chrono = { version = "0.4", features = ["serde"] }
clokwerk = "0.3"
diesel = { version = "1.4", features = ["mysql", "r2d2", "chrono"] }
diesel_migrations = "1.4"
dns-lookup = "1.0"
env_logger = "0.8"
fastping-rs = "0.2"
log = "0.4"
r2d2 = "0.8"
reqwest = { version = "0.10", features = ["blocking"] }
serde = { version = "1.0", features = ["derive"] }
ssl-expiration = "0.1"
structopt = "0.3"
thiserror = "1.0"
url = "2"
