[package]
name = "stratum"
version = "0.4.2"
edition = "2021"
publish = false

[dependencies]
git2 = { version = "=0.21.0", default-features = false, features = ["cred"] }
git-url-parse = "=0.6.0"
chrono = "=0.4.45"
thiserror = "=2.0.21"
