[package]
name = "cppdoc"
version = "0.1.0"
edition = "2021"
publish = false

[dependencies]
clang = { version = "2", features = ["clang_10_0", "runtime"] }
clap = { version = "4", features = ["derive"] }
glob = "*"
indicatif = "*"
pulldown-cmark = "*"
pygmentize = "*"
serde = { version = "1", features = ["derive"] }
serde_json = "1"
tera = "1"
toml = "*"
