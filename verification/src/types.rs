//! The version types.
pub mod semver;
pub mod version;

pub use self::semver::{SemVer, SemVerModel, SuffixedModel, SuffixedSemVer};
pub use self::version::{Version, VersionModel};
