//! Color-value normalization: textual color notations (hex strings and
//! `rgb()`/`rgba()` function notation) are parsed into one canonical
//! four-channel color, which also packs into a single 32-bit integer.

pub mod color;
pub mod errors;
pub mod formats;
pub mod scale;
pub mod scan;
