[package]
name = "fmtm_ytmimi_markdown_fmt"
version = "0.1.0"
edition = "2021"
publish = false

[dependencies]
itertools = "0.13"
pulldown-cmark = { version = "0.11", default-features = false }
textwrap = "0.16"
unicode-segmentation = "1"
