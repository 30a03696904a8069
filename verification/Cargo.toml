[package]
name = "particle_pool"
version = "0.1.0"
edition = "2021"
publish = false

[dependencies]
bevy = { version = "=0.7.0", default-features = false, features = ["render"] }
# Not named in any source file. bevy 0.7's derive crates use syn 1 items that
# need its `full` feature without asking for it; darling's macro crate asks
# for it on the build host, which lets them compile.
darling = "=0.13.4"
rand = "=0.8.8"
ron = "=0.7.1"
serde = { version = "=1.0.229", features = ["derive"] }
