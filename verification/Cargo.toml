[package]
name = "dropzone"
version = "0.1.0"
edition = "2021"
publish = false

[dependencies]
cairo-rs = "*"
gdk = "*"
glib = "*"
gtk = "*"
gtk-sys = "*"
