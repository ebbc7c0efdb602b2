//! Row sequence generator and CSV text writer.
//!
//! Given a row count `n`, the library produces the rows `(i, "0" * i)` for
//! `i` in `1..=n` and renders them as comma-separated text with the fixed
//! header `line,message`. The whole file content is pinned down by the spec
//! function [`text::csv_content`].

pub mod laws;
pub mod parse;
pub mod render;
pub mod rows;
pub mod text;

