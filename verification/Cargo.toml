[package]
name = "cache_pool"
version = "0.1.0"
edition = "2021"
publish = false

[dependencies]
redis = { version = "=0.20.2", features = ["tokio-comp"] }
mobc = "=0.7.3"
mobc-redis = "=0.7.0"
r2d2_redis = "=0.14.0"
tokio = { version = "=1.54.1", features = ["macros", "rt-multi-thread", "sync", "time"] }
warp = { version = "=0.4.3", features = ["server"] }
thiserror = "=2.0.21"
