//! `tform` normalizes loosely formatted plain text into a structured
//! document of blocks (headings, paragraphs, lists, code blocks), which
//! can then be rendered as Markdown or HTML.

pub mod classify;
pub mod config;
pub mod errors;
pub mod formatter;
pub mod laws;
pub mod parser;
pub mod structures;
pub mod text;

pub use config::Config;
pub use errors::FormatterError;
pub use formatter::render_html;
pub use formatter::render_markdown;
pub use parser::Parser;
pub use structures::Block;
pub use structures::BlockView;
pub use structures::Document;
