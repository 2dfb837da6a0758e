//! A parser object for versions of a given component type.
use vstd::prelude::*;

use crate::component::Component;
use crate::parse::{parse_version, spec_version};
use crate::error::VersionParseError;
use crate::types::version::Version;

verus! {

/// Parses versions whose numbers have the type `T`.
pub struct VersionParser<T> {
    pub(crate) _semver: core::marker::PhantomData<Version<T>>,
}

impl<T: Component> VersionParser<T> {
    /// A parser for versions of `T`.
    pub fn new() -> (r: Self) {
        Self { _semver: core::marker::PhantomData }
    }

    /// Reads all of `input` as a version, as `parse_version` does.
    pub fn parse(&self, input: &str) -> (r: Result<Version<T>, VersionParseError>)
        ensures
            match spec_version(input@, T::max_nat()) {
                Ok(v) => r matches Ok(x) && x@ == v,
                Err(e) => r matches Err(e2) && e2 == e,
            },
    {
        parse_version::<T>(input)
    }
}

} // verus!
