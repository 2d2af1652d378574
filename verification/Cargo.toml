[package]
name = "semantic_map"
version = "0.1.0"
edition = "2021"
publish = false

[dependencies]
async-openai = { version = "=0.42.1", default-features = false, features = ["chat-completion", "rustls"] }
csv = "=1.4.0"
dotenvy = "=0.15.7"
fastembed = { version = "=7.1.1", default-features = false, features = ["hf-hub"] }
ndarray = { version = "=0.16.1", default-features = false }
pacmap = "=0.2.6"
serde = { version = "=1.0.229", features = ["derive"], default-features = false }
tokio = { version = "=1.53.2", features = ["macros", "rt-multi-thread"], default-features = false }
