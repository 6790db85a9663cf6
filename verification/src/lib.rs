//! Converts the markup and style sheets of an e-book into a tree of
//! renderable nodes: text, containers and images, each with a flat record
//! of resolved style properties.
//!
//! - [`decimal`]: exact decimal numbers and the numerals they are read from.
//! - [`text`]: operations on texts as sequences of characters.
//! - [`text_map`]: a map from text keys to values that keeps insertion order.
//! - [`types`]: style records, document nodes and the parts of a book.
//! - [`style`]: merging style records.
//! - [`property`]: the table from CSS properties to style fields.
//! - [`css_parser`]: lengths, declaration blocks and style sheets.
//! - [`markup`]: markup documents as trees of elements and text.
//! - [`html_parser`]: the conversion of markup into document nodes.
//! - [`epub_extractor`]: putting a book together from its resources.

pub mod css_parser;
pub mod decimal;
pub mod epub_extractor;
pub mod html_parser;
pub mod markup;
pub mod property;
pub mod style;
pub mod text;
pub mod text_map;
pub mod types;
