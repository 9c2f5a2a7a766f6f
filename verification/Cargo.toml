[package]
name = "swc_plugin_mark_expressions"
version = "0.1.0"
edition = "2021"
publish = false

[dependencies]
jsonc-parser = { version = "0.26", features = ["serde"] }
serde = { version = "=1.0.229", features = ["derive"] }
serde_json = "=1.0.154"
swc_common = "=26.0.0"
swc_core = { version = "*", features = ["ecma_plugin_transform"] }
swc_ecma_ast = "=29.0.2"
swc_ecma_visit = "=29.0.0"
swc_plugin_macro = "=2.0.0"
swc_plugin_proxy = { version = "=30.0.0", features = ["plugin-mode"] }
