[package]
name = "eleanor"
version = "0.1.0"
edition = "2021"
publish = false

[dependencies]
adler = "1"
mime = "0.3"
mime_guess = "2"
replaygain = "*"
time = "0.3"
walkdir = "2"
lofty = "0.18"
symphonia = { version = "0.5", features = ["all"] }
rayon = "1"
miette = { version = "5", features = ["fancy"] }
thiserror = "1"
kdl = "4"
dirs = "5"
tracing = "0.1"
tracing-core = "0.1"
tracing-subscriber = { version = "0.3", features = ["env-filter"] }
chrono = "0.4"
owo-colors = "3"
tokio = { version = "1", features = ["macros", "rt-multi-thread", "sync"] }
async-trait = "0.1"
sea-orm = { version = "0.12", default-features = false, features = ["macros"] }
sea-orm-migration = { version = "0.12", default-features = false }
