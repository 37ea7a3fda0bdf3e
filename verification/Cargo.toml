[package]
name = "mcerv"
version = "0.1.0"
edition = "2021"
publish = false

[dependencies]
anyhow = "1"
clap = { version = "4", features = ["derive"] }
dialoguer = "*"
directories = "*"
futures = "0.3"
prettytable-rs = "0.10"
reqwest = { version = "0.12", features = ["json"] }
roxmltree = "*"
rustyline = "*"
serde = { version = "1", features = ["derive"] }
serde_json = "1"
sha1 = "0.10"
shlex = "1.3"
tokio = { version = "1", features = ["full"] }
zip = { version = "*", default-features = false, features = ["deflate"] }
