[package]
name = "phantom_cap"
version = "0.1.0"
edition = "2021"
publish = false

[dependencies]
chrono = "=0.4.45"
anyhow = "=1.0.104"
diesel = { version = "=2.2.12", features = ["postgres", "chrono"] }
diesel-async = { version = "=0.6.1", features = ["postgres", "bb8"] }
diesel_migrations = { version = "=2.2.0", features = ["postgres"] }
actix-web = "=4.18.1"
actix-files = "=0.6.10"
tokio = { version = "=1.54.1", features = ["macros", "rt-multi-thread"] }
url = "=2.5.8"
dotenvy = "=0.15.7"
env_logger = "=0.11.11"
log = "=0.4.35"
async-trait = "=0.1.92"
clap = { version = "=4.6.7", features = ["derive"] }
yew = { version = "0.21", features = ["csr"] }
yew-router = "0.18"
web-sys = { version = "0.3", features = ["HtmlInputElement"] }
