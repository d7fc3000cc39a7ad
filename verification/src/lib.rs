//! Version composition and bumping library.
//!
//! The crate models version strings under several schemes (semantic,
//! calendar, build quadruple, monotonic counter, and a few opaque string
//! forms), applies bump operations to them, and assembles version strings
//! from declarative templates made of typed blocks evaluated against a
//! mutable context.

pub mod blocks;
mod clock;
pub mod composer;
pub mod config;
pub mod named_map;
pub mod semantic;
pub mod strutil;
pub mod version;
