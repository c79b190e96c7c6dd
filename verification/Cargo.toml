[package]
name = "skytree"
version = "0.1.0"
edition = "2021"
publish = false

[dependencies]
proc-macro2 = { version = "=1.0.107", default-features = false }
syn = { version = "=1.0.109", default-features = false, features = ["derive", "parsing", "printing", "clone-impls"] }
quote = { version = "=1.0.47", default-features = false }
actix-web = { version = "=4.18.1", default-features = false, features = ["macros"] }
anyhow = "=1.0.104"
async-trait = "=0.1.92"
clap = { version = "=4.6.7", features = ["derive"] }
diesel = { version = "=2.3.14", features = ["sqlite", "returning_clauses_for_sqlite_3_35"] }
handlebars = { version = "=4.5.0", features = ["dir_source"] }
ini = "=1.3.0"
serde = { version = "=1.0.229", features = ["derive"] }
serde_json = "=1.0.154"
