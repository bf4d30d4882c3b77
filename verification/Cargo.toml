[package]
name = "spear"
version = "0.1.0"
edition = "2021"
publish = false

[dependencies]
serde = { version = "1", features = ["derive"] }
serde_json = "1"
async-channel = "2"
gtk4 = "0.9"
gdk4 = "0.9"
gio = "0.20"
glib = "0.20"
libadwaita = "0.7"
