//! Changelogs in the "Keep a Changelog" dialect of Markdown: read into a
//! document, changed, and written back.

pub mod changelog;
pub mod changes;
pub mod consts;
pub mod date;
pub mod error;
pub mod formatter;
pub mod link;
pub mod order;
pub mod parser;
pub mod pattern;
pub mod release;
pub mod text;
pub mod token;
pub mod version;

pub use changelog::{Changelog, ChangelogBuilder, ChangelogParseOptions};
pub use changes::{ChangeKind, Changes};
pub use date::Date;
pub use error::Error;
pub use link::Link;
pub use parser::Parser;
pub use release::{Release, ReleaseBuilder};
pub use token::{tokenize, Token, TokenKind};
pub use version::Version;
