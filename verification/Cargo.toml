[package]
name = "rars"
version = "0.1.0"
edition = "2021"
publish = false

[dependencies]
chrono = "0.4"
clap = { version = "4", features = ["derive"] }
file-guard = "*"
fnv = "1"
futures = "0.3"
hyprland = "0.3"
iced = { version = "0.13", default-features = false, features = ["tiny-skia"] }
indexmap = "2"
lazy_static = "1"
miette = "7"
nix = { version = "0.29", features = ["signal"] }
ron = "0.8"
serde = { version = "1", features = ["derive"] }
thiserror = "1"
tokio = { version = "1", features = ["rt-multi-thread"] }
zbus = "5"
