[package]
name = "dash_mpd"
version = "0.1.0"
edition = "2021"
publish = false

[dependencies]
regex = "=1.13.1"
url = "=2.5.8"
chrono = { version = "=0.4.45", default-features = false, features = ["std", "clock", "serde"] }
iso8601 = "=0.6.6"
sanitise-file-name = "=1.0.0"
xmlparser = "=0.13.6"
serde = { version = "=1.0.229", features = ["derive"] }
serde_with = "=3.24.0"
quick-xml = { version = "=0.42.0", features = ["serialize"] }
serde_path_to_error = "=0.1.20"
thiserror = "=2.0.21"
data-url = "*"
oxideav-subtitle = "*"
