[package]
name = "management_app"
version = "0.1.0"
edition = "2021"
publish = false

[dependencies]
toml = "=0.5.11"
log = "=0.4.34"
pretty_env_logger = "=0.4.0"
serialport = { version = "=4.10.1", default-features = false }
dbus = { version = "=0.9.12", features = ["vendored"] }
dbus-crossroads = "=0.5.3"

[dev-dependencies]
protobuf = "=2.28.0"
