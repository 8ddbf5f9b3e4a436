//! Conversion of JSON Feed documents (versions 1.0 and 1.1) into Atom XML.
//!
//! The library parses a JSON Feed document into a typed model, normalizes the
//! legacy single-`author` field into the multi-`authors` form, derives the
//! feed-level `updated` timestamp from the items' timestamps, and renders an
//! Atom document as a string. A small freshness check decides whether an
//! output file whose modification time is already past the feed's `updated`
//! instant needs rewriting.

pub mod model;
pub mod updated;
pub mod instant;
mod chars;
mod jsontext;
pub mod normalize;
pub mod parse;
pub mod render;
