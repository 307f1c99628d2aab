[package]
name = "grep_engine"
version = "0.1.0"
edition = "2021"
publish = false

[dependencies]
globset = "*"
grep-matcher = "*"
grep-regex = "*"
grep-searcher = "*"
ignore = "*"
rayon = "*"
