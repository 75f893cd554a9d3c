[package]
name = "partners"
version = "0.1.0"
edition = "2021"
publish = false

[dependencies]
git2 = { version = "0.19", default-features = false }
clap = "2"
termion = "1"
xdg = "2"
