[package]
name = "photo_culler"
version = "0.1.0"
edition = "2021"
publish = false

[dependencies]
chrono = { version = "0.4", default-features = false, features = ["std", "alloc"] }
base64 = "0.22"
serde = { version = "1", features = ["derive"] }
serde_json = "1"
kamadak-exif = "0.5"
image = { version = "0.25", default-features = false, features = ["jpeg", "png"] }
arboard = "3"
rayon = "1"
directories = "5"
egui = "0.30"
