//! Turns the markup of a documentation page into a plain-text corpus.
//!
//! Two extractors work on the raw markup of one page:
//!
//! * [`title::get_crate_title`] takes the text of the `<title>` element and
//!   removes every character that does not belong in a file name;
//! * [`content::get_all_text_anchors`] captures the inner text of anchors,
//!   paragraphs, headings and spans, cleans each fragment with an ordered
//!   list of rewrite rules, and joins the fragments with newlines.
//!
//! [`document::convert_page`] puts the two together. Pattern matching is
//! left to the `regex` crate, behind the functions of [`engine`]; everything
//! around it is verified against contracts over the results of the engine.

pub mod content;
pub mod document;
pub mod engine;
pub mod error;
pub mod lines;
pub mod rules;
pub mod text;
pub mod title;
