//! Layout analysis of text pages: a geometric model of pages, blocks, lines
//! and words, estimators for the main text column and the body font size,
//! and the classification of every block as title, text or neither.
//!
//! All coordinates are whole numbers of a fixed sub-unit of the page unit
//! (see [`number::UNITS_PER_POINT`]), so every comparison is exact.

pub mod classify;
pub mod estimate;
pub mod extractor;
pub mod geometry;
pub mod layout;
pub mod markup;
pub mod number;
pub mod parser;
pub mod record;
pub mod stats;
pub mod text;

pub use classify::{classify_blocks, classify_page, get_block_attr};
pub use estimate::{body_line_heights, get_font_sizes, get_text_area, normal_font_size};
pub use geometry::{Coordinate, Point, Ratio, COORD_LIMIT};
pub use layout::{Block, BlockAttr, Line, Page, Word};
pub use markup::{parse_html, read_records};
pub use number::{parse_coordinate, UNITS_PER_POINT};
pub use parser::{classify_document, parse_records};
pub use record::{
    build_document, BlockRecord, BoxRecord, LineRecord, PageRecord, ParseError, WordRecord,
};
