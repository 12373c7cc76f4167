[package]
name = "plcrash"
version = "0.1.0"
edition = "2021"
publish = false

[dependencies]
addr2line = "*"
chrono = { version = "*", default-features = false, features = ["alloc"] }
gimli = "*"
goblin = "*"
plist = "*"
uuid = { version = "*", features = ["v4"] }
zip = { version = "*", default-features = false, features = ["deflate"] }
