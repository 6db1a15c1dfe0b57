//! Markdown templates with a header of variables.
//!
//! A template is a header of `KEY: VALUE` lines, a line that holds the
//! sentinel `******`, and a Markdown body in which `$$KEY$$` stands for the
//! value of `KEY`. The header becomes a [`VariableMap`], the body is parsed
//! into a [`DocumentTree`], every text node of the tree has its placeholders
//! replaced, and the tree is rendered as HTML.

pub mod convert;
pub mod errors;
pub mod header;
pub mod laws;
pub mod markdown;
pub mod text;
pub mod tree;
pub mod variables;

pub use convert::{markdown_to_html, snippet_replacer_to_markdown};
pub use errors::{ConvertError, HeaderFault, RegexError, SnippitError, ToHtmlError};
pub use header::make_snippits;
pub use tree::{snippit_replace, DocumentTree, NodeContent};
pub use variables::VariableMap;
