[package]
name = "nmt"
version = "0.1.0"
edition = "2021"
publish = false

[dependencies]
glob = "=0.3.4"
oxc_allocator = "=0.139.0"
oxc_ast = "=0.139.0"
oxc_ast_visit = "=0.139.0"
oxc_parser = "=0.139.0"
oxc_span = "=0.139.0"
oxc_resolver = "=11.10.0"
remove_empty_subdirs = "=0.1.1"
clap = { version = "=4.5.61", features = ["derive", "env"] }
dirs = "=7.0.0"
strum = { version = "=0.28.0", features = ["derive"] }
serde_json = "=1.0.151"
bollard = "=0.21.1"
flate2 = "=1.1.10"
futures-util = "=0.3.34"
tar = "*"
tokio = { version = "=1.53.2", features = ["rt-multi-thread", "macros"] }

[dev-dependencies]
assert_fs = "=1.1.4"
fs_extra = "*"
