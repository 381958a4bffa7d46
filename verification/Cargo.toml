[package]
name = "quotefault-backend"
version = "0.1.0"
edition = "2021"
publish = false

[dependencies]
base64 = "0.22"
openssl = "0.10"
sha3 = "0.10"
serde = { version = "1", features = ["derive"] }
serde_json = "1"
chrono = "0.4"
actix-web = { version = "4", default-features = false, features = ["macros"] }
actix-cors = "*"
sqlx = { version = "*", default-features = false, features = ["runtime-tokio", "postgres", "chrono"] }
isahc = { version = "1", default-features = false, features = ["json"] }
futures = "0.3"
log = "0.4"
anyhow = "1"
dotenv = "0.15"
ldap3 = "*"
