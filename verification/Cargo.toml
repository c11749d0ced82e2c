[package]
name = "git-workon-review"
version = "0.1.0"
edition = "2021"
publish = false

[dependencies]
unicode-width = "*"
libc = "*"
ratatui = { version = "*", default-features = false }
git2 = { version = "*", default-features = false }
