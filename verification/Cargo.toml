[package]
name = "blobs"
version = "0.1.0"
edition = "2021"
publish = false

[dependencies]
fvm_shared = "=4.8.4"
num-traits = "=0.2.19"
serde = { version = "=1.0.229", features = ["derive"] }
anyhow = "=1.0.104"
thiserror = "=1.0.69"
fvm_ipld_encoding = "=0.5.4"
fvm_ipld_blockstore = "=0.3.2"
cid = "=0.11.3"
frc42_dispatch = "=11.0.0"
num-derive = "=0.4.2"
serde_json = "=1.0.154"
warp = "=0.3.7"
tokio = { version = "=1.54.1", features = ["rt", "macros", "fs", "io-util"] }
tokio-util = { version = "0.7", features = ["compat"] }
futures-util = "0.3"
bytes = "1"
base64 = "0.21"
async-tempfile = "0.5"

[dev-dependencies]
rand = "=0.8.8"
