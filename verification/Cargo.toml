[package]
name = "catalyst"
version = "0.1.0"
edition = "2021"
publish = false

[dependencies]
bcrypt = "=0.15.1"
flate2 = "=1.1.10"
uuid = { version = "=1.29.0", features = ["v4"] }
chrono = "=0.4.45"
jsonwebtoken = "=9.3.1"
serde = { version = "=1.0.229", features = ["derive"] }
serde_json = "=1.0.154"
toml = "=0.8.23"
backtrace = "=0.3.77"
once_cell = "=1.21.4"
dotenv = "=0.15.0"
rocket = { version = "=0.5.2", features = ["json"] }
rocket_dyn_templates = { version = "=0.2.0", features = ["tera"] }
diesel = { version = "=2.2.12", default-features = false, features = ["postgres_backend", "chrono", "serde_json"] }
diesel-async = { version = "=0.5.2", features = ["postgres", "deadpool"] }
futures-util = "0.3"
tokio = { version = "=1.54.1", features = ["full"] }
