[package]
name = "midifile"
version = "0.1.0"
edition = "2021"
publish = false

[dev-dependencies]
quickcheck = { version = "1.0.3", default-features = false }
