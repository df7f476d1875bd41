[package]
name = "lotka_volterra"
version = "0.1.0"
edition = "2021"
publish = false

[dependencies]
rand = "=0.9.5"
ode_solvers = "*"
plotters = "*"
clap = { version = "*", features = ["derive"] }
dialoguer = "*"
indicatif = "*"
prettytable-rs = "*"
itertools = "*"
