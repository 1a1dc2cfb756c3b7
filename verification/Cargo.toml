[package]
name = "artifact_inventory"
version = "0.1.0"
edition = "2021"
publish = false

[dependencies]
sha2 = "0.10"
java-properties = "2.0.0"
clap = { version = "4.5.4", features = ["derive"] }
fs2 = "0.4"
fs-err = "2.11.0"
reqwest = { version = "0.12.4", default-features = false, features = ["blocking", "rustls-tls"] }
rayon = "1"
tempfile = "3.10.1"
chrono = "0.4"
flate2 = "1.0.30"
tar = "0.4.40"
glob = "0.3.1"
num_cpus = "1"
