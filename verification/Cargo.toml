[package]
name = "annotations"
version = "0.1.0"
edition = "2021"
publish = false

[dependencies]
gtk4 = { version = "*", features = ["v4_12"] }
gdk4 = "*"
gdk4-x11 = "*"
glib = "*"
cairo-rs = "*"
serde = { version = "1", features = ["derive"] }
toml = "0.8"
dirs = "*"
x11rb = { version = "0.13", features = ["allow-unsafe-code"] }
