[package]
name = "docker_rs_desktop"
version = "0.1.0"
edition = "2021"
publish = false

[dependencies]
anyhow = "1"
directories = "5"
dockerfile-parser = "=0.9.0"
oci-client = { version = "=0.14.0", default-features = false, features = ["rustls-tls"] }
oci-spec = { version = "=0.7.1", default-features = false, features = ["image"] }
serde = { version = "1", features = ["derive"] }
serde_json = "1"
sha2 = "0.10"
tempfile = "3"
tokio = { version = "1", features = ["rt", "fs"] }
