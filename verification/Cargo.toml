[package]
name = "unit_testing"
version = "0.1.0"
edition = "2021"
publish = false

[dependencies]
regex = "*"
is_executable = "*"
colored_truecolor = "*"
progress_bar = "*"
crossterm_cursor = "*"
