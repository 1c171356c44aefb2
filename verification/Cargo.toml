[package]
name = "zincio"
version = "0.1.0"
edition = "2021"
publish = false

[dependencies]
slab = "=0.4.12"
smallvec = "=1.16.4"
crossbeam-queue = "=0.3.14"
rustc-hash = "=2.1.3"
libc = "=0.2.191"
mio = { version = "=1.2.4", features = ["os-poll", "os-ext", "net"] }
io-uring = "=0.7.15"
oneshot = { version = "=0.2.1", features = ["async", "std"] }
async-channel = "=2.5.0"
futures-util = "=0.3.34"
once_cell = "=1.21.4"
rusty_pool = "=0.7.0"
tokio = "=1.54.1"
hyper = { version = "=1.12.0", features = ["client", "server", "http1"] }
quinn = { version = "=0.11.12", default-features = false }
