[package]
name = "markitdown"
version = "0.1.0"
edition = "2021"
publish = false

[dependencies]
regex = "=1.13.1"
flate2 = "=1.1.10"
csv = "=1.4.0"
base64 = "=0.23.1"
cfb = "=0.16.0"
zip = "=9.2.2"
quick-xml = "=0.42.0"
tar = "=0.4.46"
bzip2 = "=0.6.1"
xz2 = "=0.1.7"
mail-parser = "=0.11.9"
serde_json = "=1.0.154"
serde_yaml = "=0.9.34"
toml = "=1.1.8"
calamine = "=0.38.0"
icalendar = "=0.17.17"
vcard_parser = "=0.2.3"
html2md = "=0.2.17"
serde = { version = "=1.0.229", features = ["derive"] }
docx-rust = "=0.1.11"
feed-rs = "=3.0.0"
kamadak-exif = "=0.6.1"
rtf-parser = "=0.4.3"
rbook = "=0.7.12"
infer = "=0.22.0"
mime_guess = "=2.0.5"
zstd = "=0.14.3"
