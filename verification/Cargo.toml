[package]
name = "vec_parallel"
version = "0.1.0"
edition = "2021"
publish = false

[dependencies]
atomic-waker = "=1.1.2"
num_cpus = "=1.17.0"
some_executor = "=0.4.1"

[dev-dependencies]
test_executors = "=0.6.0"
