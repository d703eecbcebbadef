[package]
name = "hemolymph"
version = "0.1.0"
edition = "2021"
publish = false

[dependencies]
actix-cors = "=0.7.2"
actix-web = "=4.18.1"
dotenv = "=0.15.0"
notify = "=6.1.1"
notify-debouncer-mini = "=0.4.1"
serde = { version = "=1.0.229", features = ["derive"] }
serde_json = "=1.0.154"
tokio = { version = "=1.54.1", features = ["full"] }
yew = { version = "=0.21.0", features = ["ssr"] }
