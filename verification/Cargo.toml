[package]
name = "dces"
version = "0.1.0"
edition = "2021"
publish = false

[dependencies]
anyhow = "1"
clap = { version = "3", features = ["cargo"] }
crossbeam = "0.8"
native-tls = "0.2"
ureq = { version = "2", features = ["json", "native-tls"] }
wasmtime = { version = "4", default-features = false, features = ["cranelift", "wat"] }
