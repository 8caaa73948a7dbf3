[package]
name = "total_analyzer"
version = "0.1.0"
edition = "2021"
publish = false

[dependencies]
anyhow = "=1.0.104"
serde = { version = "=1.0.229", features = ["derive"] }
serde_json = "=1.0.154"
walkdir = "=2.5.0"
ruff_python_ast = "<0.0.8"
ruff_python_parser = "<0.0.8"
ruff_python_semantic = "<0.0.8"
ruff_python_index = "<0.0.8"
ruff_source_file = "<0.0.8"
ruff_text_size = "<0.0.8"
