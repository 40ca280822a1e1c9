[package]
name = "oklch_picker"
version = "0.1.0"
edition = "2021"
publish = false

[dependencies]
colstodian = "=0.1.0-rc.3"
egui = "=0.13.1"
epaint = "=0.13.0"
# Nothing here calls kolor. colstodian does, and its own requirement admits
# later releases of kolor that are built on another glam than colstodian is;
# this line holds kolor to the release that colstodian was written against.
kolor = { version = "=0.1.6", default-features = false }
