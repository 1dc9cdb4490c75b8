[package]
name = "snapshot_archive"
version = "0.1.0"
edition = "2021"
publish = false

[dependencies]
bincode = "1"
bzip2 = "*"
dir-diff = "*"
flate2 = "1"
log = "0.4"
num_cpus = "1"
rayon = "1"
serde = "1"
symlink = "*"
tar = "0.4"
tempfile = "3"
thiserror = "1"
zstd = "*"

[dev-dependencies]
regex = "1"
