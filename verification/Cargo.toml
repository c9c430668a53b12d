[package]
name = "vm_wizard"
version = "0.1.0"
edition = "2021"
publish = false

[dependencies]
ashpd = { version = "=0.13.13", features = ["file_chooser"] }
