[package]
name = "battery_health"
version = "0.1.0"
edition = "2021"
publish = false

[dependencies]
ciborium = "=0.2.2"
serde = { version = "=1.0.229", features = ["derive"] }
serde_json = "=1.0.154"
log = "=0.4.35"
embedded-graphics = "=0.8.2"
embedded-hal = "=1.0.0"
embedded-svc = "=0.28.1"
embassy-executor = { version = "=0.10.0", features = ["platform-std", "executor-thread"] }
embassy-sync = "=0.8.0"
embassy-time = "=0.5.1"
static_cell = "=2.1.1"
dotenv_codegen = "=0.15.0"
esp-idf-sys = "=0.36.1"
esp-idf-hal = "=0.45.2"
esp-idf-svc = { version = "=0.51.0", features = ["critical-section", "embassy-time-driver"] }
esp-ota = "=0.2.2"
