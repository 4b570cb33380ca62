[package]
name = "dook"
version = "0.3.0"
edition = "2021"
publish = false

[dependencies]
hyperpolyglot = "=0.1.7"
heck = "=0.5.0"
merde = { version = "=10.0.7", features = ["json", "yaml", "deserialize"] }
merde_json = "=10.0.6"
tree-sitter = "=0.25.10"
tree-sitter-loader = "=0.25.10"
tree-sitter-python = "=0.23.6"
clap = { version = "=4.6.7", features = ["derive"] }
console = "=0.16.6"
env_logger = "=0.11.11"
log = "=0.4.35"
etcetera = "=0.11.0"
regex = "=1.13.1"
os_str_bytes = { version = "=7.2.1", features = ["conversions"] }
pager = "=0.16.1"
base16ct = { version = "=0.2.0", features = ["alloc"] }
digest = "=0.10.7"
sha2 = "=0.10.9"
tempfile = "=3.27.0"
libloading = "=0.8.9"
