[package]
name = "agogo_core"
version = "0.1.0"
edition = "2021"
publish = false

[dependencies]
connections = "*"
rtrb = "*"
rust-fsm = "*"
thiserror = "*"
rand = "*"
rand_distr = "*"
rand_pcg = "*"
