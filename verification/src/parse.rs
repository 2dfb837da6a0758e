//! Parsing versions from text.
use vstd::prelude::*;
use vstd::string::*;

use crate::component::Component;
use crate::error::{ParseError, VersionParseError};
use crate::text::{
    decimal_value, is_ascii_digit, is_digit, is_whitespace, is_whitespace_char,
    leading_digits, lemma_leading_digits,
};
use crate::types::semver::{SemVer, SemVerModel, SuffixedModel, SuffixedSemVer};
use crate::types::version::{Version, VersionModel};

verus! {

/// Reading one numeric component at the start of `s`, for a type that holds
/// numbers up to `max`: the number and the text after it, or why it fails.
///
/// A component is `0`, or a digit other than `0` followed by as many digits as
/// there are; `0` may not be followed by another digit.
pub open spec fn spec_component(s: Seq<char>, max: nat) -> Result<(nat, Seq<char>), ParseError> {
    if s.len() == 0 {
        Err(ParseError::InvalidFormat)
    } else if !is_digit(s[0]) {
        Err(ParseError::InvalidComponent)
    } else if s[0] == '0' {
        if s.len() > 1 && is_digit(s[1]) {
            Err(ParseError::InvalidComponent)
        } else {
            Ok((0, s.skip(1)))
        }
    } else {
        let n = leading_digits(s) as int;
        let v = decimal_value(s.take(n));
        if v <= max {
            Ok((v, s.skip(n)))
        } else {
            Err(ParseError::ComponentOverflow)
        }
    }
}

/// The text after a leading `.`, or `InvalidFormat` when there is none.
pub open spec fn spec_dot(s: Seq<char>) -> Result<Seq<char>, ParseError> {
    if s.len() > 0 && s[0] == '.' {
        Ok(s.skip(1))
    } else {
        Err(ParseError::InvalidFormat)
    }
}

/// Reading `MAJOR.MINOR.PATCH` at the start of `s`: the numbers and the text after them.
pub open spec fn spec_semver(s: Seq<char>, max: nat) -> Result<(SemVerModel, Seq<char>), ParseError> {
    match spec_component(s, max) {
        Err(e) => Err(e),
        Ok((major, r1)) => match spec_dot(r1) {
            Err(e) => Err(e),
            Ok(r2) => match spec_component(r2, max) {
                Err(e) => Err(e),
                Ok((minor, r3)) => match spec_dot(r3) {
                    Err(e) => Err(e),
                    Ok(r4) => match spec_component(r4, max) {
                        Err(e) => Err(e),
                        Ok((patch, r5)) => Ok(
                            (SemVerModel { major, minor, patch }, r5),
                        ),
                    },
                },
            },
        },
    }
}

/// Reading all of `s` as `MAJOR.MINOR.PATCH`; text after the version is `TrailingInput`.
pub open spec fn spec_semver_exact(s: Seq<char>, max: nat) -> Result<SemVerModel, ParseError> {
    match spec_semver(s, max) {
        Err(e) => Err(e),
        Ok((v, rest)) => if rest.len() == 0 {
            Ok(v)
        } else {
            Err(ParseError::TrailingInput)
        },
    }
}

/// `c` separates a version from its suffix.
pub open spec fn is_separator(c: char) -> bool {
    c == '-' || c == '+'
}

/// `s` holds a white-space character.
pub open spec fn has_whitespace(s: Seq<char>) -> bool {
    exists|i: int| 0 <= i < s.len() && #[trigger] is_whitespace(s[i])
}

/// A suffix: not empty, without white space, and not starting with a separator.
pub open spec fn valid_suffix(s: Seq<char>) -> bool {
    &&& s.len() > 0
    &&& !has_whitespace(s)
    &&& !is_separator(s[0])
}

/// Reading a separator and a suffix that make up all of `s`.
pub open spec fn spec_suffix(s: Seq<char>) -> Result<(Seq<char>, Seq<char>), VersionParseError> {
    if s.len() == 0 {
        Err(VersionParseError::InvalidSuffix)
    } else if !is_separator(s[0]) {
        Err(VersionParseError::InvalidFormat)
    } else if !valid_suffix(s.skip(1)) {
        Err(VersionParseError::InvalidSuffix)
    } else {
        Ok((s.take(1), s.skip(1)))
    }
}

/// Reading all of `s` as a version, with or without a suffix.
pub open spec fn spec_version(s: Seq<char>, max: nat) -> Result<VersionModel, VersionParseError> {
    match spec_semver(s, max) {
        Err(e) => Err(VersionParseError::SemVer(e)),
        Ok((v, rest)) => if rest.len() == 0 {
            Ok(VersionModel::SemVer(v))
        } else {
            match spec_suffix(rest) {
                Err(e) => Err(e),
                Ok((separator, suffix)) => Ok(
                    VersionModel::Suffixed(SuffixedModel { version: v, separator, suffix }),
                ),
            }
        },
    }
}

/// Reads one numeric component at the start of `input`, and returns it with the
/// text after it.
pub fn parse_component<'a, T: Component>(input: &'a str) -> (r: Result<(T, &'a str), ParseError>)
    ensures
        match spec_component(input@, T::max_nat()) {
            Ok((v, rest)) => r matches Ok((x, tail)) && x.as_nat() == v && tail@ == rest,
            Err(e) => r matches Err(e2) && e2 == e,
        },
{
    proof {
        T::lemma_max();
    }
    let len = input.unicode_len();
    if len == 0 {
        return Err(ParseError::InvalidFormat);
    }
    let first = input.get_char(0);
    if !is_ascii_digit(first) {
        return Err(ParseError::InvalidComponent);
    }
    if first == '0' {
        if len > 1 && is_ascii_digit(input.get_char(1)) {
            return Err(ParseError::InvalidComponent);
        }
        let value = match T::from_u128(0) {
            Some(v) => v,
            None => return Err(ParseError::ComponentOverflow),
        };
        return Ok((value, input.substring_char(1, len)));
    }
    let ghost s = input@;
    let mut end: usize = 1;
    let mut acc: u128 = (first as u32 - 48) as u128;
    let mut overflow: bool = false;
    proof {
        let t = s.take(1);
        assert(t.drop_last() =~= Seq::<char>::empty());
        assert(decimal_value(t.drop_last()) == 0);
        assert(t.last() == first);
    }
    while end < len && is_ascii_digit(input.get_char(end))
        invariant
            s == input@,
            len == s.len(),
            1 <= end <= len,
            forall|j: int| 0 <= j < end ==> #[trigger] is_digit(s[j]),
            !overflow ==> acc == decimal_value(s.take(end as int)),
            overflow ==> decimal_value(s.take(end as int)) > u128::MAX,
        decreases len - end,
    {
        let c = input.get_char(end);
        let d: u128 = (c as u32 - 48) as u128;
        proof {
            let t = s.take(end + 1);
            assert(t.drop_last() =~= s.take(end as int));
            assert(t.last() == c);
            assert(decimal_value(t) == decimal_value(s.take(end as int)) * 10 + d);
        }
        if !overflow {
            match acc.checked_mul(10) {
                Some(m) => match m.checked_add(d) {
                    Some(a) => {
                        acc = a;
                    },
                    None => {
                        overflow = true;
                    },
                },
                None => {
                    overflow = true;
                },
            }
        }
        end = end + 1;
    }
    proof {
        lemma_leading_digits(s, end as int);
    }
    if overflow {
        return Err(ParseError::ComponentOverflow);
    }
    match T::from_u128(acc) {
        Some(value) => Ok((value, input.substring_char(end, len))),
        None => Err(ParseError::ComponentOverflow),
    }
}

/// Removes the `.` that `input` starts with, or fails with `InvalidFormat`.
fn strip_dot<'a>(input: &'a str) -> (r: Result<&'a str, ParseError>)
    ensures
        match spec_dot(input@) {
            Ok(rest) => r matches Ok(tail) && tail@ == rest,
            Err(e) => r matches Err(e2) && e2 == e,
        },
{
    let len = input.unicode_len();
    if len > 0 && input.get_char(0) == '.' {
        Ok(input.substring_char(1, len))
    } else {
        Err(ParseError::InvalidFormat)
    }
}

/// Reads `MAJOR.MINOR.PATCH` at the start of `input`, and returns the version
/// with the text after it.
pub fn parse_semver<'a, T: Component>(input: &'a str) -> (r: Result<(SemVer<T>, &'a str), ParseError>)
    ensures
        match spec_semver(input@, T::max_nat()) {
            Ok((v, rest)) => r matches Ok((x, tail)) && x@ == v && tail@ == rest,
            Err(e) => r matches Err(e2) && e2 == e,
        },
{
    let (major, input) = parse_component::<T>(input)?;
    let input = strip_dot(input)?;
    let (minor, input) = parse_component::<T>(input)?;
    let input = strip_dot(input)?;
    let (patch, input) = parse_component::<T>(input)?;
    Ok((SemVer::from_parts(major, minor, patch), input))
}

/// Reads a separator (`-` or `+`) and the suffix after it, which make up all of
/// `input`; both are returned as they stand.
pub fn parse_suffix(input: &str) -> (r: Result<(String, String), VersionParseError>)
    ensures
        match spec_suffix(input@) {
            Ok((sep, suf)) => r matches Ok((a, b)) && a@ == sep && b@ == suf,
            Err(e) => r matches Err(e2) && e2 == e,
        },
{
    let len = input.unicode_len();
    if len == 0 {
        return Err(VersionParseError::InvalidSuffix);
    }
    let first = input.get_char(0);
    if !(first == '-' || first == '+') {
        return Err(VersionParseError::InvalidFormat);
    }
    let suffix = input.substring_char(1, len);
    let ghost s = suffix@;
    assert(s =~= input@.skip(1));
    if len == 1 {
        return Err(VersionParseError::InvalidSuffix);
    }
    let mut i: usize = 0;
    while i < len - 1
        invariant
            s == suffix@,
            s == input@.skip(1),
            input@.len() == len,
            is_separator(input@[0]),
            s.len() == len - 1,
            i <= len - 1,
            forall|j: int| 0 <= j < i ==> !#[trigger] is_whitespace(s[j]),
        decreases len - 1 - i,
    {
        if is_whitespace_char(suffix.get_char(i)) {
            proof {
                assert(is_whitespace(s[i as int]));
            }
            return Err(VersionParseError::InvalidSuffix);
        }
        i = i + 1;
    }
    let second = suffix.get_char(0);
    if second == '-' || second == '+' {
        return Err(VersionParseError::InvalidSuffix);
    }
    let separator = input.substring_char(0, 1);
    Ok((separator.to_owned(), suffix.to_owned()))
}

/// Reads all of `input` as a version: plain when nothing follows the numbers,
/// suffixed when a separator and a suffix follow them.
pub fn parse_version<T: Component>(input: &str) -> (r: Result<Version<T>, VersionParseError>)
    ensures
        match spec_version(input@, T::max_nat()) {
            Ok(v) => r matches Ok(x) && x@ == v,
            Err(e) => r matches Err(e2) && e2 == e,
        },
{
    let (version, remaining) = match parse_semver::<T>(input) {
        Ok(parsed) => parsed,
        Err(e) => return Err(VersionParseError::SemVer(e)),
    };
    if remaining.unicode_len() == 0 {
        return Ok(Version::SemVer(version));
    }
    let (separator, suffix) = parse_suffix(remaining)?;
    Ok(Version::Suffixed(SuffixedSemVer::new(version, separator, suffix)))
}

impl<T: Component> core::str::FromStr for SemVer<T> {
    type Err = ParseError;

    fn from_str(input: &str) -> (r: Result<Self, Self::Err>)
        ensures
            match spec_semver_exact(input@, T::max_nat()) {
                Ok(v) => r matches Ok(x) && x@ == v,
                Err(e) => r matches Err(e2) && e2 == e,
            },
    {
        let (version, remaining) = parse_semver::<T>(input)?;
        if remaining.unicode_len() != 0 {
            return Err(ParseError::TrailingInput);
        }
        Ok(version)
    }
}

impl<T: Component> core::str::FromStr for Version<T> {
    type Err = VersionParseError;

    fn from_str(input: &str) -> (r: Result<Self, Self::Err>)
        ensures
            match spec_version(input@, T::max_nat()) {
                Ok(v) => r matches Ok(x) && x@ == v,
                Err(e) => r matches Err(e2) && e2 == e,
            },
    {
        parse_version::<T>(input)
    }
}

} // verus!
