[package]
name = "ref_negotiation"
version = "0.1.0"
edition = "2021"
publish = false

[dependencies]
bstr = "=1.13.1"
gix-refspec = "=0.47.1"
gix-hash = { version = "=0.28.1", features = ["sha1"] }
gix-protocol = { version = "=0.68.0", features = ["blocking-client"] }
gix-transport = { version = "=0.62.0", features = ["blocking-client"] }
gix-credentials = "=0.42.1"
gix-error = "=0.5.2"
gix-features = { version = "=0.50.0", features = ["progress"] }
gix-url = "=0.40.1"
gix-trace = "=0.3.1"
gix-sec = "=0.16.0"
thiserror = "=2.0.21"
serde = { version = "=1.0.229", features = ["derive"] }
