//! Rewrites lightweight text markup (headings, emphasis, code, links, images,
//! checkboxes and lists) into markup fragments, by a fixed sequence of
//! whole-text passes, one per construct.

pub mod element;
pub mod matcher;
pub mod pipeline;
pub mod text;

pub use element::Element;
pub use matcher::{Captured, Scan};
pub use pipeline::{apply_pass, html_document, markdown_to_html, rewrite, Construct};
pub use text::{list_items, trim_spaces};
