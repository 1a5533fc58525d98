//! Clipboard image extraction, decode, caching, and path-synthesis pipeline.
//!
//! The library turns a raw device-independent-bitmap (DIB) byte buffer, as an
//! OS clipboard hands it out, into validated pixel data and a PNG-encoded
//! buffer, derives a native path and a POSIX-style remapped path for the
//! future file, and caches the most recent result keyed by the clipboard
//! sequence number. Header parsing, layout arithmetic, pixel extraction,
//! path synthesis and the cache are verified; the PNG compression itself
//! and the wall-clock timestamp are obtained through trusted wrappers
//! around the `image` and `chrono` crates.

pub mod clipboard;
pub mod config;
pub mod dib;
pub mod hotkey;
pub mod png;
pub mod wslpath;
