[package]
name = "walker_progress"
version = "0.1.0"
edition = "2021"
publish = false

[dependencies]
anyhow = "1"
dirs = "*"
fn-error-context = "*"
futures = "0.3"
libc = "0.2"
once_cell = "1"
slog = "2"
