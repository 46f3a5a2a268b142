//! Extraction of a leading frontmatter block (JSON, TOML or YAML) from a text
//! document, with exact byte ranges for the block and for the body.

pub mod format;
pub mod lines;
mod outside;
pub mod error;
pub mod split;
pub mod decode;

pub use decode::{parse, FrontmatterValue};
pub use error::FrontmatterError;
pub use format::FrontmatterFormat;
pub use lines::{LineSpan, LineSpans};
pub use split::{split, split_trimmed, SplitFrontmatter};
