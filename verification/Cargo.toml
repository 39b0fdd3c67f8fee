[package]
name = "mailfilter"
version = "0.1.0"
edition = "2021"
publish = false

[dependencies]
aho-corasick = "1"
log = "0.4"
mailparse = "*"
memchr = "2"
