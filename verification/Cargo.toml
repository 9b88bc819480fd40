[package]
name = "blackjack"
version = "0.1.0"
edition = "2021"
publish = false

[dependencies]
rand = "0.8"
log = "0.4"
fern = "*"
chrono = "0.4"
plotters = "0.3"
plotters-bitmap = "0.3"
