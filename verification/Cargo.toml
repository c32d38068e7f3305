[package]
name = "strflags"
version = "0.1.0"
edition = "2021"
publish = false

[dependencies]
convert_case = "*"
levenshtein = "*"
smallvec = "1"
log = "*"
serde = "*"
ecow = "*"
