//! A recursive filesystem search core: depth-first walk planning over a
//! stack of pending paths, classification-independent filtering of entries
//! by kind and by base name, and per-root aggregation of matching paths.
//!
//! Directory reads themselves are I/O and are performed by the surrounding
//! program; this crate decides what to visit next, which entries survive
//! the configured filters, and what each root's output block holds.

pub mod entry;
pub mod filter;
pub mod output;
pub mod pattern;
pub mod walker;
