//! Semantic version strings: parsing, printing and incrementing.
//!
//! A version is `MAJOR.MINOR.PATCH`, each number written without leading
//! zeros, optionally followed by a separator (`-` or `+`) and a suffix, such as
//! `6.5.9-dev` or `6.5.9+build`.
pub mod component;
pub mod error;
pub mod laws;
pub mod parse;
pub mod parser;
pub mod text;
pub mod types;

pub use self::component::Component;
pub use self::error::{Error, ParseError, SemVerParseError, VersionParseError};
pub use self::parser::VersionParser;
pub use self::types::{SemVer, SemVerModel, SuffixedModel, SuffixedSemVer, Version, VersionModel};
