[package]
name = "deb-installer"
version = "0.1.0"
edition = "2021"
publish = false

[dependencies]
anyhow = "=1.0.104"
apt-auth-config = "=0.6.1"
clap = { version = "4", default-features = false, features = ["derive", "std", "help", "usage", "error-context"] }
console = { version = "=0.16.6", default-features = false, features = ["std", "ansi-parsing"] }
cxx-qt = "0.8"
cxx-qt-lib = { version = "0.8", features = ["qt_gui", "qt_qml", "qt_quickcontrols"] }
flume = { version = "=0.12.0", default-features = false }
getrandom = "=0.4.3"
gettext-rs = { version = "=0.8.0", features = ["gettext-system"] }
oma-fetch = { version = "=0.40.0", default-features = false }
oma-pm = { version = "=0.65.0", default-features = false }
oma-utils = { version = "=0.14.0", default-features = false, features = ["human-bytes"] }
reqwest-middleware = { version = "=0.5.2", default-features = false }
rustls = { version = "0.23", default-features = false, features = ["ring"] }
sysinfo = { version = "=0.39.6", default-features = false, features = ["system"] }
tracing = "0.1"
tracing-subscriber = { version = "0.3", default-features = false, features = ["fmt", "env-filter", "ansi"] }
which = { version = "=8.0.6", default-features = false, features = ["real-sys"] }
