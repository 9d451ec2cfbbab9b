//! Flattening of structured documents into rectangular grids of optional
//! string cells, together with the byte-level text decoding that precedes it.
//!
//! A raw byte buffer is first decoded to text (strict UTF-8 fast path, then a
//! charset-sniffing fallback), the text is parsed into a generic tree value,
//! and the tree is flattened into one row per leaf or empty container, padded
//! to a uniform width of `max_depth + 1` cells.

use vstd::prelude::*;

pub mod decode;
pub mod digits;
pub mod flatten;
pub mod parse;
pub mod tree;

verus! {

/// One fully converted document: where it came from, the grid of rows, and
/// the number of path columns in that grid.
#[derive(Clone, Default)]
pub struct ConvertedFile {
    pub src: String,
    pub rows: Vec<Vec<Option<String>>>,
    pub max_depth: usize,
}

} // verus!
