[package]
name = "backtrace"
version = "0.1.0"
edition = "2021"
publish = false

[dependencies]
addr2line = { version = "0.24", default-features = false }
gimli = "0.31"
libc = "=0.2.191"
object = { version = "=0.36.7", default-features = false, features = ["read_core", "elf", "macho", "pe", "unaligned"] }
rustc-demangle = "=0.1.28"
