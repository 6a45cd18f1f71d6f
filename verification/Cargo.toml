[package]
name = "sharp_tui"
version = "0.1.0"
edition = "2021"
publish = false

[dependencies]
bidimap = "*"
textwrap = "*"
yoga = "*"
crossterm = "*"
dioxus = { version = "*", default-features = false, features = ["macro", "signals", "hooks"] }
dioxus-sdk-time = "*"
ordered-float = "*"
tokio = { version = "*", features = ["rt-multi-thread"] }
