//! Documentation output formats for Bicep documents.
pub mod asciidoc;
pub mod common;
pub mod formatting;
pub mod markdown;
pub mod yaml;
