[package]
name = "event_loop_core"
version = "0.1.0"
edition = "2021"
publish = false

[dependencies]
objc2 = { version = "=0.4.1", default-features = false, features = ["std", "gnustep-1-7"] }
icrate = { version = "=0.0.4", default-features = false, features = ["std", "gnustep-1-7", "Foundation"] }
