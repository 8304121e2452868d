[package]
name = "db_migrator"
version = "0.2.0"
edition = "2021"
publish = false

[dependencies]
anyhow = "*"
async-trait = "*"
bb8 = "=0.9.1"
bb8-tiberius = "=0.16.0"
chrono = "=0.4.45"
env_logger = "*"
futures = "*"
hex = "=0.4.3"
log = "*"
sqlx = { version = "=0.9.0", default-features = false, features = ["runtime-tokio", "mysql"] }
structopt = "=0.3.26"
tiberius = { version = "=0.12.3", default-features = false, features = ["chrono", "tds73", "sql-browser-tokio", "winauth"] }
tokio = { version = "=1.53.2", features = ["rt-multi-thread", "macros", "sync", "time"] }
toml = "*"
