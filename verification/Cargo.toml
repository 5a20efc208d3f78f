[package]
name = "dependency_closure"
version = "0.1.0"
edition = "2021"
publish = false

[dependencies]
anyhow = "=1.0.104"
cargo = "=0.78.1"
semver = "=1.0.28"
thiserror = "=1.0.69"
# Not called by this crate. These hold three dependencies of cargo 0.78 back
# to releases that it still builds with.
bstr = "=1.9.1"
cargo-util = "=0.2.25"
kstring = "=2.0.2"
