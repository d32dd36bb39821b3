[package]
name = "dogwood"
version = "0.1.0"
edition = "2021"
publish = false

[dependencies]
cfgrammar = "=0.15.0"
lrlex = "=0.15.0"
lrpar = "=0.15.0"
lrtable = "=0.15.0"
miette = "=7.6.0"
