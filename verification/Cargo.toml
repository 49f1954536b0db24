[package]
name = "today_i_ran"
version = "0.1.0"
edition = "2021"
publish = false

[dependencies]
anyhow = "=1.0.104"
colored = "=2.2.0"
prettytable-rs = "=0.10.0"
structopt = "=0.3.26"

[dev-dependencies]
regex = "1"
