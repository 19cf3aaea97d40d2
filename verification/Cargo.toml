[package]
name = "schema_migration"
version = "0.1.0"
edition = "2021"
publish = false

[dependencies]
async-trait = "=0.1.92"
dotenvy = "=0.15.7"
sea-orm = { version = "=1.1.20", default-features = false, features = ["macros", "sqlx-postgres", "runtime-tokio"] }
sea-orm-migration = { version = "=1.1.20", default-features = false, features = ["sqlx-postgres", "runtime-tokio"] }
tokio = { version = "=1.54.1", features = ["macros", "rt-multi-thread"] }
