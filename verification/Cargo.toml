[package]
name = "ical_writer"
version = "0.1.0"
edition = "2021"
publish = false

[dependencies]
ical_vcard = "*"
uuid = { version = "*", features = ["v4"] }
