[package]
name = "limux_host"
version = "0.1.0"
edition = "2021"
publish = false

[dependencies]
serde = { version = "1", features = ["derive"] }
serde_json = "1"
shell-quote = "*"
uuid = { version = "1", features = ["v4"] }
dirs = "*"
gtk4 = "*"
libadwaita = "*"
gdk4-wayland = "*"
