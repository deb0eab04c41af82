[package]
name = "protein_comparison_tool"
version = "0.1.0"
edition = "2021"
publish = false
