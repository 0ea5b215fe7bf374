[package]
name = "vixen"
version = "0.1.0"
edition = "2021"
publish = false

[dependencies]
maud = { version = "=0.27.0", features = ["axum"] }
axum = { version = "=0.8.9", features = ["macros"] }
axum-extra = { version = "=0.12.6", features = ["typed-routing", "form"] }
axum-htmx = { version = "=0.8.1", features = ["serde"] }
serde = { version = "=1.0.229", features = ["derive"] }
serde_json = "=1.0.154"
heck = "=0.5.0"
mime_guess = "=2.0.5"
proc-macro2 = "=1.0.107"
quote = "=1.0.47"
syn = { version = "=2.0.119", features = ["full", "visit-mut", "extra-traits"] }
