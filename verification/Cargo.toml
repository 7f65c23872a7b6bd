[package]
name = "todo_list"
version = "0.1.0"
edition = "2021"
publish = false

[dependencies]
bincode = { version = "2", features = ["serde"] }
chrono = { version = "0.4", features = ["serde"] }
clap = { version = "4", features = ["derive"] }
inquire = "*"
nom = "8"
serde = { version = "1", features = ["derive"] }
shlex = "1"
sled = "0.34"
tabled = "*"
thiserror = "*"
