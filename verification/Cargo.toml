[package]
name = "test_infra"
version = "0.1.0"
edition = "2021"
publish = false

[dependencies]
colored = "*"
hex = "*"
once_cell = "*"
primitive-types = "*"
zkevm_opcode_defs = "*"
