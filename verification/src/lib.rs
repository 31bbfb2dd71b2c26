//! Decoding the text of PDF documents.
//!
//! A PDF shows text as byte strings in the fonts of a page. This library turns
//! those bytes into Unicode text and puts the text in order:
//!
//! - [`encoding`] reads PDF strings and names: PDFDocEncoding and UTF-16BE.
//! - [`names`] and [`tables`] hold glyph lists, the named encodings and the
//!   metrics of the standard fonts; [`standard`] builds the tables of the standard
//!   Latin character set from the data in [`standard_data`].
//! - [`fontencoding`], [`tounicode`] and [`widths`] build the parts of a simple
//!   font; [`simplefont`] puts them together.
//! - [`cid`], [`fallback`] and [`truetype`] build the parts of a composite font;
//!   [`cidfont`] puts them together.
//! - [`font`] reads the strings that a page shows into glyphs.
//! - [`content`] says what each operation of a content stream asks for.
//! - [`span`] collects the text of a span, [`lines`] parts spans into lines, and
//!   [`line_order`] proves what holds of those lines.
//! - [`layout`] prints lines as plain text or on a character grid.
//! - [`extract`] holds the options of an extraction, and [`system_font`] lists
//!   where a look-alike font is looked for.
//!
//! Lengths and positions on the page are the caller's business: the library takes
//! the numbers of a document as they are written and hands them back as they are.

use vstd::prelude::*;

pub mod cid;
pub mod cidfont;
pub mod content;
pub mod encoding;
pub mod extract;
pub mod fallback;
pub mod font;
pub mod fontdata;
pub mod fontencoding;
pub mod layout;
pub mod line_order;
pub mod lines;
pub mod names;
pub mod simplefont;
pub mod span;
pub mod standard;
pub mod standard_data;
pub mod system_font;
pub mod tables;
pub mod text;
pub mod tounicode;
pub mod truetype;
pub mod widths;

pub use crate::extract::{PdfExtractor, PdfExtractorBuilder};
pub use crate::font::{make_font, FontSource, PdfFont};
pub use crate::tables::{FontError, FontTables};

verus! {

/// Marker for the coordinate space in which extracted text is positioned.
pub struct Space;

} // verus!
