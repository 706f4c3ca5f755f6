[package]
name = "svelte_compiler"
version = "0.1.0"
edition = "2021"
publish = false

[dependencies]
oxc_allocator = "=0.143.0"
oxc_ast = { version = "=0.143.0", features = ["serialize"] }
oxc_parser = "=0.143.0"
oxc_span = "=0.143.0"
lightningcss = "=1.0.0-alpha.72"
serde = { version = "=1.0.229", features = ["derive"] }
serde_json = "=1.0.154"
camino = "=1.2.6"
futures = "=0.3.34"
tree-sitter = "=0.25.10"
