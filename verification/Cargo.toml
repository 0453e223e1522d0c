[package]
name = "redox"
version = "0.1.0"
edition = "2021"
publish = false

[dependencies]
ascii = "1"
clap = { version = "4", features = ["derive"] }
clio = { version = "0.3", features = ["clap-parse"] }
inkwell = { version = "0.5", features = ["llvm18-0"] }
proc-macro2 = "1"
syn = { version = "2", features = ["full"] }
thiserror = "1"
tracing = "0.1"
tracing-subscriber = "0.3"
