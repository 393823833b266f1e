[package]
name = "schema_engine"
version = "0.1.0"
edition = "2021"
publish = false

[dependencies]
allocator-api2 = "=0.2.21"
hashbrown = "=0.17.1"
url = "=2.5.8"
simd-json = "=0.18.1"
value-trait = "*"
