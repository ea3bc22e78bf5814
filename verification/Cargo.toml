[package]
name = "vk_suballoc"
version = "0.1.0"
edition = "2021"
publish = false

[dependencies]
erupt = "=0.23.0+213"
anyhow = "=1.0.104"
argh = "=0.1.19"
fuzzy-matcher = "*"
