[package]
name = "dcz"
version = "0.1.0"
edition = "2021"
publish = false

[dependencies]
iced-x86 = { version = "=1.21.0", features = ["code_asm"] }
object = { version = "=0.40.0", features = ["write"] }
clap = { version = "=4.6.7", features = ["derive"] }
colored = "=3.1.1"
