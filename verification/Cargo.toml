[package]
name = "niri_bar"
version = "0.1.0"
edition = "2021"
publish = false

[dependencies]
async-channel = "=2.5.0"
chrono = "=0.4.45"
freedesktop-desktop-entry = { version = "=0.7.19", default-features = false }
futures-util = "=0.3.34"
gdk = "=0.18.2"
gdk-pixbuf = "=0.18.5"
gio = "=0.18.4"
glib = "=0.18.5"
gtk = "=0.18.2"
gtk-layer-shell = "=0.8.2"
libc = "=0.2.191"
serde = { version = "=1.0.229", features = ["derive"] }
serde_json = { version = "=1.0.154", features = ["preserve_order", "raw_value"] }
tokio = { version = "=1.54.1", features = ["rt", "rt-multi-thread", "macros", "time", "sync", "net", "io-util"] }
toml = "=0.8.2"
zbus = { version = "=5.19.0", default-features = false, features = ["tokio"] }
zvariant = "=5.15.1"
