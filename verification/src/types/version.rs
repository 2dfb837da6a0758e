//! A version that is either plain or suffixed.
use vstd::prelude::*;

use crate::component::Component;
use crate::types::semver::{semver_text, suffixed_text, SemVer, SemVerModel, SuffixedModel, SuffixedSemVer};

verus! {

/// A plain or a suffixed version, as numbers and text.
pub enum VersionModel {
    SemVer(SemVerModel),
    Suffixed(SuffixedModel),
}

/// The text of a version.
pub open spec fn version_text(v: VersionModel) -> Seq<char> {
    match v {
        VersionModel::SemVer(s) => semver_text(s),
        VersionModel::Suffixed(s) => suffixed_text(s),
    }
}

/// The numbers of a version, without any suffix.
pub open spec fn numbers_of(v: VersionModel) -> SemVerModel {
    match v {
        VersionModel::SemVer(s) => s,
        VersionModel::Suffixed(s) => s.version,
    }
}

/// A version: plain `MAJOR.MINOR.PATCH`, or followed by a separator and a suffix.
#[derive(Clone, Debug, PartialEq, Eq, Hash, PartialOrd, Ord)]
pub enum Version<T = u16> {
    SemVer(SemVer<T>),
    Suffixed(SuffixedSemVer<T>),
}

impl<T: Component> View for Version<T> {
    type V = VersionModel;

    open spec fn view(&self) -> VersionModel {
        match self {
            Version::SemVer(v) => VersionModel::SemVer(v@),
            Version::Suffixed(v) => VersionModel::Suffixed(v@),
        }
    }
}

impl<T: Component> Version<T> {
    /// The plain version.
    pub fn semver(version: SemVer<T>) -> (r: Self)
        ensures
            r == Version::SemVer(version),
    {
        Self::SemVer(version)
    }

    /// The suffixed version.
    pub fn suffixed(version: SuffixedSemVer<T>) -> (r: Self)
        ensures
            r == Version::Suffixed(version),
    {
        Self::Suffixed(version)
    }

    /// The numbers of the version, without any suffix.
    pub fn as_semver(&self) -> (r: &SemVer<T>)
        ensures
            r@ == numbers_of(self@),
            self is SemVer ==> *r == self->SemVer_0,
    {
        match self {
            Self::SemVer(version) => version,
            Self::Suffixed(version) => version.version(),
        }
    }

    /// Whether the version has a suffix.
    pub fn is_suffixed(&self) -> (r: bool)
        ensures
            r == self is Suffixed,
    {
        match self {
            Self::SemVer(_) => false,
            Self::Suffixed(_) => true,
        }
    }

    /// The text of the version, with its separator and suffix when it has them.
    pub fn to_string(&self) -> (s: String)
        ensures
            s@ == version_text(self@),
    {
        match self {
            Self::SemVer(version) => version.to_string(),
            Self::Suffixed(version) => version.to_string(),
        }
    }
}

} // verus!
