[package]
name = "ddbug"
version = "0.2.0"
edition = "2021"
publish = false

[dependencies]
marksman_escape = "0.1.2"
gimli = "*"
object = "*"
goblin = "*"
memmap = "0.7.0"
fnv = "1.0.7"
log = "0.4"
env_logger = "*"
clap = "2.34.0"
panopticon-core = "*"
