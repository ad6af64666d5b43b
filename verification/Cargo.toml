[package]
name = "niri_workspaces"
version = "0.1.0"
edition = "2021"
publish = false

[dependencies]
color-eyre = "0.6"
freedesktop-desktop-entry = "0.5"
itertools = "0.13"
niri-ipc = "0.1"
serde = { version = "1", features = ["derive"] }
serde_json = "1"
xdgkit = "*"
