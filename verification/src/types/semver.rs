//! Plain `MAJOR.MINOR.PATCH` versions and versions with a suffix.
use vstd::prelude::*;
use vstd::string::*;

use crate::component::Component;
use crate::text::{decimal_text, push_decimal};

verus! {

/// The three numbers of a version.
pub struct SemVerModel {
    pub major: nat,
    pub minor: nat,
    pub patch: nat,
}

/// A version with a separator and a suffix, as text.
pub struct SuffixedModel {
    pub version: SemVerModel,
    pub separator: Seq<char>,
    pub suffix: Seq<char>,
}

/// The text `MAJOR.MINOR.PATCH` of a version, each number in its shortest numeral.
pub open spec fn semver_text(v: SemVerModel) -> Seq<char> {
    decimal_text(v.major) + seq!['.'] + decimal_text(v.minor) + seq!['.'] + decimal_text(v.patch)
}

/// The text of a suffixed version: the version, then the separator, then the suffix.
pub open spec fn suffixed_text(v: SuffixedModel) -> Seq<char> {
    semver_text(v.version) + v.separator + v.suffix
}

/// Every number of `v` fits the component type `T`.
pub open spec fn fits<T: Component>(v: SemVerModel) -> bool {
    &&& v.major <= T::max_nat()
    &&& v.minor <= T::max_nat()
    &&& v.patch <= T::max_nat()
}

/// The version that follows `v`: the patch counts up to 9, then the minor
/// number counts up to 9, then the major number grows.
pub open spec fn successor_model(v: SemVerModel) -> SemVerModel {
    if v.patch < 9 {
        SemVerModel { major: v.major, minor: v.minor, patch: v.patch + 1 }
    } else if v.minor < 9 {
        SemVerModel { major: v.major, minor: v.minor + 1, patch: 0 }
    } else {
        SemVerModel { major: v.major + 1, minor: 0, patch: 0 }
    }
}

/// `a` comes before `b`: compared by major, then minor, then patch number.
pub open spec fn precedes(a: SemVerModel, b: SemVerModel) -> bool {
    ||| a.major < b.major
    ||| a.major == b.major && a.minor < b.minor
    ||| a.major == b.major && a.minor == b.minor && a.patch < b.patch
}

/// A semantic version `MAJOR.MINOR.PATCH` whose numbers have the type `T`.
#[derive(Clone, Copy, Debug, PartialEq, Eq, Hash, PartialOrd, Ord)]
pub struct SemVer<T = u16> {
    pub(crate) major: T,
    pub(crate) minor: T,
    pub(crate) patch: T,
}

impl<T: Component> View for SemVer<T> {
    type V = SemVerModel;

    closed spec fn view(&self) -> SemVerModel {
        SemVerModel { major: self.major.as_nat(), minor: self.minor.as_nat(), patch: self.patch.as_nat() }
    }
}

impl<T: Component> SemVer<T> {
    /// Every number of a version fits its component type.
    pub proof fn lemma_fits(&self)
        ensures
            fits::<T>(self@),
    {
        self.major.lemma_range();
        self.minor.lemma_range();
        self.patch.lemma_range();
    }

    /// Two versions with the same numbers are the same version.
    pub proof fn lemma_view_injective(&self, other: &Self)
        ensures
            self@ == other@ ==> *self == *other,
    {
        self.major.lemma_injective(other.major);
        self.minor.lemma_injective(other.minor);
        self.patch.lemma_injective(other.patch);
    }

    /// The version `0.0.0`.
    pub fn new() -> (r: Self)
        ensures
            r@ == (SemVerModel { major: 0, minor: 0, patch: 0 }),
    {
        Self::zero()
    }

    /// The version `0.0.0`.
    pub fn zero() -> (r: Self)
        ensures
            r@ == (SemVerModel { major: 0, minor: 0, patch: 0 }),
    {
        proof {
            T::lemma_max();
        }
        let z = T::from_u128(0).unwrap();
        Self { major: z, minor: z, patch: z }
    }

    /// The version with the given numbers.
    pub fn from_parts(major: T, minor: T, patch: T) -> (r: Self)
        ensures
            r@ == (SemVerModel { major: major.as_nat(), minor: minor.as_nat(), patch: patch.as_nat() }),
    {
        Self { major, minor, patch }
    }

    /// The major number.
    pub fn major(&self) -> (r: &T)
        ensures
            r.as_nat() == self@.major,
    {
        &self.major
    }

    /// The minor number.
    pub fn minor(&self) -> (r: &T)
        ensures
            r.as_nat() == self@.minor,
    {
        &self.minor
    }

    /// The patch number.
    pub fn patch(&self) -> (r: &T)
        ensures
            r.as_nat() == self@.patch,
    {
        &self.patch
    }

    /// The major, minor and patch numbers, in this order.
    pub fn into_parts(self) -> (r: (T, T, T))
        ensures
            r.0.as_nat() == self@.major,
            r.1.as_nat() == self@.minor,
            r.2.as_nat() == self@.patch,
    {
        (self.major, self.minor, self.patch)
    }

    /// The next version: the patch number counts up while it is below 9; at 9 it
    /// goes back to 0 and the minor number counts up while that is below 9; when
    /// both are 9 or more, the major number counts up and the others go back to 0.
    /// The major number must have room to grow when it is the one to count up.
    pub fn successor(&self) -> (r: Self)
        requires
            self@.patch < 9 || self@.minor < 9 || self@.major < T::max_nat(),
        ensures
            r@ == successor_model(self@),
    {
        proof {
            T::lemma_max();
        }
        let zero = T::from_u128(0).unwrap();
        let major = self.major.to_u128();
        let minor = self.minor.to_u128();
        let patch = self.patch.to_u128();
        if patch < 9 {
            Self { major: self.major, minor: self.minor, patch: T::from_u128(patch + 1).unwrap() }
        } else if minor < 9 {
            Self { major: self.major, minor: T::from_u128(minor + 1).unwrap(), patch: zero }
        } else {
            Self { major: T::from_u128(major + 1).unwrap(), minor: zero, patch: zero }
        }
    }

    /// The text `MAJOR.MINOR.PATCH`, each number in its shortest decimal numeral.
    pub fn to_string(&self) -> (s: String)
        ensures
            s@ == semver_text(self@),
    {
        let mut s = String::new();
        push_decimal(&mut s, self.major.to_u128());
        proof {
            reveal_strlit(".");
        }
        s.append(".");
        push_decimal(&mut s, self.minor.to_u128());
        s.append(".");
        push_decimal(&mut s, self.patch.to_u128());
        s
    }
}

impl<T: Component> Default for SemVer<T> {
    fn default() -> (r: Self)
        ensures
            r@ == (SemVerModel { major: 0, minor: 0, patch: 0 }),
    {
        Self::zero()
    }
}

/// A version followed by a separator and a suffix, such as `6.5.9-dev`.
#[derive(Clone, Debug, PartialEq, Eq, Hash, PartialOrd, Ord)]
pub struct SuffixedSemVer<T = u16> {
    pub(crate) version: SemVer<T>,
    pub(crate) separator: String,
    pub(crate) suffix: String,
}

impl<T: Component> View for SuffixedSemVer<T> {
    type V = SuffixedModel;

    closed spec fn view(&self) -> SuffixedModel {
        SuffixedModel { version: self.version@, separator: self.separator@, suffix: self.suffix@ }
    }
}

impl<T: Component> SuffixedSemVer<T> {
    /// Every number of the version fits its component type.
    pub proof fn lemma_fits(&self)
        ensures
            fits::<T>(self@.version),
    {
        self.version.lemma_fits();
    }

    /// The version with the given separator and suffix, kept as they are.
    pub fn new(version: SemVer<T>, separator: String, suffix: String) -> (r: Self)
        ensures
            r@ == (SuffixedModel { version: version@, separator: separator@, suffix: suffix@ }),
    {
        Self { version, separator, suffix }
    }

    /// The version without its suffix.
    pub fn version(&self) -> (r: &SemVer<T>)
        ensures
            r@ == self@.version,
    {
        &self.version
    }

    /// The separator between version and suffix.
    pub fn separator(&self) -> (r: &str)
        ensures
            r@ == self@.separator,
    {
        self.separator.as_str()
    }

    /// The suffix.
    pub fn suffix(&self) -> (r: &str)
        ensures
            r@ == self@.suffix,
    {
        self.suffix.as_str()
    }

    /// The version, the separator and the suffix, in this order.
    pub fn into_parts(self) -> (r: (SemVer<T>, String, String))
        ensures
            r.0@ == self@.version,
            r.1@ == self@.separator,
            r.2@ == self@.suffix,
    {
        (self.version, self.separator, self.suffix)
    }

    /// The text of the version, then the separator, then the suffix.
    pub fn to_string(&self) -> (s: String)
        ensures
            s@ == suffixed_text(self@),
    {
        let mut s = self.version.to_string();
        s.append(self.separator.as_str());
        s.append(self.suffix.as_str());
        s
    }
}

} // verus!
