[package]
name = "bpmn_audit"
version = "0.1.0"
edition = "2021"
publish = false

[dependencies]
dotenv = "0.15"
rust_xlsxwriter = "*"
