[package]
name = "re_query"
version = "0.1.0"
edition = "2021"
publish = false

[dependencies]
arrow2 = "0.16"
arrow2_convert = "0.4.2"
egui = "0.21"
getrandom = "0.2"
once_cell = "1"
re_arrow_store = "0.5"
re_log_types = "0.5"
serde = { version = "1", features = ["derive"] }
