//! Verified core of a URL component inspection and mutation tool.
//!
//! The library parses component names and `component=value` assignment
//! tokens, extracts an ordered map of requested components from a URL,
//! applies assignment sequences to a URL, and renders results either as
//! plain text or as a single-line JSON object.  Parsing and mutating the
//! URL itself is delegated to the `url` crate through a small trusted
//! adapter; everything above that adapter is verified.

pub mod component;
pub mod errors;
pub mod extract;
pub mod urlmodel;
pub mod mutate;
pub mod pipeline;
pub mod render;
pub mod resultmap;
pub mod text;
